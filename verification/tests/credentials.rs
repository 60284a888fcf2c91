use sso_core::credential::{verify, Account, AccountStatus, Credential, HashParams};
use sso_core::handlers::Error;
use sso_core::otp::{accepts, code_for, counter_to_bytes, read_code, truncate, MODULUS};

const RFC_SECRET: &[u8] = b"12345678901234567890";

fn cheap() -> HashParams {
    HashParams::new(1, 1, 8).unwrap()
}

fn field(name: &str) -> Error {
    Error::ValidationError { field: name.to_string() }
}

fn account(status: AccountStatus, second_factor: Option<Vec<u8>>) -> Account {
    Account {
        id: "a1".to_string(),
        credential: Credential::derive(b"p", b"saltsalt".to_vec(), cheap()).unwrap(),
        second_factor,
        status,
    }
}

#[test]
fn derived_hash_is_that_of_argon2i() {
    let params = HashParams::new(3, 1, 4096).unwrap();
    let credential = Credential::derive(b"password", b"saltsalt".to_vec(), params).unwrap();
    let expected = argon2rs::argon2i_simple("password", "saltsalt");
    assert_eq!(credential.hash().as_slice(), &expected[..]);
    assert_eq!(credential.hash().len(), 32);
}

#[test]
fn hash_depends_on_cost_and_salt() {
    let a = Credential::derive(b"p", b"saltsalt".to_vec(), cheap()).unwrap();
    let b = Credential::derive(b"p", b"saltsalt".to_vec(), HashParams::new(2, 1, 8).unwrap())
        .unwrap();
    let c = Credential::derive(b"p", b"pepperpepper".to_vec(), cheap()).unwrap();
    let d = Credential::derive(b"p", b"saltsalt".to_vec(), HashParams::new(1, 2, 16).unwrap())
        .unwrap();
    assert_ne!(a.hash(), b.hash());
    assert_ne!(a.hash(), c.hash());
    assert_ne!(a.hash(), d.hash());
    assert_ne!(a.hash().as_slice(), b"p");
}

#[test]
fn credential_matches_its_secret_only() {
    let credential = Credential::derive(b"p", b"saltsalt".to_vec(), cheap()).unwrap();
    assert!(credential.matches(b"p"));
    assert!(!credential.matches(b"q"));
    assert!(!credential.matches(b""));
    assert!(!credential.matches(b"pp"));
}

#[test]
fn stored_credential_matches_as_the_derived_one() {
    let derived = Credential::derive(b"secret", b"0123456789".to_vec(), cheap()).unwrap();
    let stored =
        Credential::from_parts(derived.hash().clone(), b"0123456789".to_vec(), cheap()).unwrap();
    assert!(stored.matches(b"secret"));
    assert!(!stored.matches(b"Secret"));
    let other = Credential::from_parts(vec![0u8; 32], b"0123456789".to_vec(), cheap()).unwrap();
    assert!(!other.matches(b"secret"));
    let short = Credential::from_parts(vec![1, 2, 3], b"0123456789".to_vec(), cheap()).unwrap();
    assert!(!short.matches(b"secret"));
}

#[test]
fn salt_out_of_range_is_refused() {
    assert_eq!(Credential::derive(b"p", b"short".to_vec(), cheap()).err(), Some(field("salt")));
    assert_eq!(Credential::derive(b"p", Vec::new(), cheap()).err(), Some(field("salt")));
    assert_eq!(
        Credential::from_parts(vec![0u8; 32], b"1234567".to_vec(), cheap()).err(),
        Some(field("salt"))
    );
    assert!(Credential::from_parts(vec![0u8; 32], b"12345678".to_vec(), cheap()).is_ok());
}

#[test]
fn cost_out_of_range_is_refused() {
    assert_eq!(HashParams::new(0, 1, 8).err(), Some(field("params")));
    assert_eq!(HashParams::new(1, 0, 8).err(), Some(field("params")));
    assert_eq!(HashParams::new(1, 1, 7).err(), Some(field("params")));
    assert_eq!(HashParams::new(1, 2, 15).err(), Some(field("params")));
    assert_eq!(HashParams::new(1, 0x100_0000, u32::MAX).err(), Some(field("params")));
    assert_eq!(HashParams::new(1, 0xff_ffff, 0x7ff_fff7).err(), Some(field("params")));
    assert!(HashParams::new(1, 0xff_ffff, 0x7ff_fff8).is_ok());
    assert!(HashParams::new(u32::MAX, 65, 1024).is_ok());
    assert_eq!(
        HashParams::new(1, 1, u32::MAX).is_ok(),
        (u32::MAX as u64 / 4) * 4096 <= (usize::MAX / 2) as u64
    );
    let p = HashParams::new(3, 2, 16).unwrap();
    assert_eq!((p.passes(), p.lanes(), p.kib()), (3, 2, 16));
    assert!(HashParams::new(1, 64, 512).is_ok());
}

#[test]
fn verifier_accepts_the_right_password() {
    let a = account(AccountStatus::Active, None);
    assert_eq!(verify(Some(&a), b"p", None, 0), Ok("a1".to_string()));
    assert_eq!(verify(Some(&a), b"p", Some(123456), 0), Ok("a1".to_string()));
}

#[test]
fn verifier_names_the_first_check_that_fails() {
    let active = account(AccountStatus::Active, None);
    let disabled = account(AccountStatus::Disabled, None);
    let guarded = account(AccountStatus::Active, Some(RFC_SECRET.to_vec()));
    let guarded_disabled = account(AccountStatus::Disabled, Some(RFC_SECRET.to_vec()));
    assert_eq!(verify(None, b"p", None, 0), Err(Error::AccountNotFound));
    assert_eq!(verify(Some(&active), b"x", None, 0), Err(Error::BadCredential));
    assert_eq!(verify(Some(&disabled), b"x", None, 0), Err(Error::BadCredential));
    assert_eq!(verify(Some(&disabled), b"p", None, 0), Err(Error::AccountDisabled));
    assert_eq!(verify(Some(&guarded), b"p", None, 59), Err(Error::SecondFactorRequired));
    assert_eq!(verify(Some(&guarded), b"x", Some(287082), 59), Err(Error::BadCredential));
    assert_eq!(verify(Some(&guarded), b"p", Some(111111), 59), Err(Error::BadSecondFactor));
    assert_eq!(verify(Some(&guarded), b"p", Some(287082), 59), Ok("a1".to_string()));
    assert_eq!(
        verify(Some(&guarded_disabled), b"p", None, 59),
        Err(Error::SecondFactorRequired)
    );
    assert_eq!(
        verify(Some(&guarded_disabled), b"p", Some(111111), 59),
        Err(Error::BadSecondFactor)
    );
    assert_eq!(
        verify(Some(&guarded_disabled), b"p", Some(287082), 59),
        Err(Error::AccountDisabled)
    );
}

#[test]
fn codes_are_those_of_the_standard() {
    let secret = RFC_SECRET.to_vec();
    let expected = [
        755224u32, 287082, 359152, 969429, 338314, 254676, 287922, 162583, 399871, 520489,
    ];
    for (counter, code) in expected.iter().enumerate() {
        assert_eq!(code_for(&secret, counter as u64), *code);
    }
    assert_eq!(code_for(&secret, 37037036), 81804);
    assert_eq!(code_for(&secret, 66666666), 279037);
}

#[test]
fn counter_is_written_big_endian() {
    assert_eq!(counter_to_bytes(0), vec![0u8; 8]);
    assert_eq!(counter_to_bytes(1), vec![0, 0, 0, 0, 0, 0, 0, 1]);
    assert_eq!(counter_to_bytes(0x0102030405060708), vec![1, 2, 3, 4, 5, 6, 7, 8]);
    assert_eq!(counter_to_bytes(u64::MAX), vec![255u8; 8]);
}

#[test]
fn truncation_reads_four_bytes_at_the_offset() {
    let mac = vec![
        0x1f, 0x86, 0x98, 0x69, 0x0e, 0x02, 0xca, 0x16, 0x61, 0x85, 0x50, 0xef, 0x7f, 0x19, 0xda,
        0x8e, 0x94, 0x5b, 0x55, 0x5a,
    ];
    assert_eq!(truncate(&mac), 872921);
    let mut high = vec![0xffu8; 20];
    high[19] = 0xf0;
    assert_eq!(truncate(&high), 2147483647 % 1_000_000);
    let mut last = vec![0u8; 20];
    last[19] = 0x0f;
    last[15] = 0x80;
    last[17] = 0x0f;
    last[18] = 7;
    assert_eq!(truncate(&last), 0x0f07 % 1_000_000);
}

#[test]
fn code_is_accepted_one_step_to_either_side() {
    let secret = RFC_SECRET.to_vec();
    let step_one = 287082;
    assert!(accepts(&secret, step_one, 30));
    assert!(accepts(&secret, step_one, 59));
    assert!(accepts(&secret, step_one, 0));
    assert!(accepts(&secret, step_one, 29));
    assert!(accepts(&secret, step_one, 60));
    assert!(accepts(&secret, step_one, 89));
    assert!(!accepts(&secret, step_one, 90));
    assert!(!accepts(&secret, step_one, 120));
    assert!(accepts(&secret, 755224, 0));
    assert!(accepts(&secret, 755224, 59));
    assert!(!accepts(&secret, 755224, 60));
    assert!(!accepts(&secret, 1_287_082, 59));
}

#[test]
fn presented_code_is_six_digits() {
    assert_eq!(read_code("287082"), 287082);
    assert_eq!(read_code("000000"), 0);
    assert_eq!(read_code("000042"), 42);
    assert_eq!(read_code("999999"), 999999);
    assert_eq!(MODULUS, 1_000_000);
    for malformed in ["", "28708", "2870820", "28708a", " 87082", "-87082", "28\u{662}082", "+12345"] {
        assert_eq!(read_code(malformed), MODULUS);
    }
}

#[test]
fn malformed_code_is_a_bad_second_factor() {
    let guarded = account(AccountStatus::Active, Some(RFC_SECRET.to_vec()));
    assert_eq!(
        verify(Some(&guarded), b"p", Some(read_code("28708")), 59),
        Err(Error::BadSecondFactor)
    );
    assert_eq!(
        verify(Some(&guarded), b"p", Some(read_code("287082")), 59),
        Ok("a1".to_string())
    );
}
