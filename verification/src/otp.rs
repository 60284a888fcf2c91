//! Time-based one-time codes: six digits from an HMAC-SHA1 over the number of
//! the 30-second step, accepted for the current step and its two neighbours.

use vstd::prelude::*;
use vstd::string::StrSliceExecFns;
use crate::text::digit_char;

verus! {

/// The length of a time step, in seconds.
pub const STEP_SECONDS: u64 = 30;

/// One more than the largest code: codes have six digits.
pub const MODULUS: u32 = 1_000_000;

/// The HMAC-SHA1 of `message` under `key`, as the `hmac-sha1` crate computes
/// it.
pub uninterp spec fn hmac_sha1_digest(key: Seq<u8>, message: Seq<u8>) -> Seq<u8>;

/// `hmac_sha1::hmac_sha1`: the 20 bytes of the HMAC-SHA1 of `message` under
/// `key`. The crate takes keys of any length and returns an array of 20
/// bytes.
#[verifier::external_body]
fn hmac_sha1(key: &Vec<u8>, message: &Vec<u8>) -> (mac: Vec<u8>)
    ensures
        mac@ == hmac_sha1_digest(key@, message@),
        mac@.len() == 20,
{
    hmac_sha1::hmac_sha1(key, message).to_vec()
}

/// The eight bytes of the counter, the most significant first.
pub open spec fn counter_bytes(counter: u64) -> Seq<u8> {
    seq![
        ((counter / 0x100_0000_0000_0000) % 256) as u8,
        ((counter / 0x1_0000_0000_0000) % 256) as u8,
        ((counter / 0x100_0000_0000) % 256) as u8,
        ((counter / 0x1_0000_0000) % 256) as u8,
        ((counter / 0x100_0000) % 256) as u8,
        ((counter / 0x1_0000) % 256) as u8,
        ((counter / 0x100) % 256) as u8,
        (counter % 256) as u8,
    ]
}

/// The six-digit code in a MAC of 20 bytes: the low half of the last byte
/// says where four bytes are read; they are taken as a number, the highest
/// bit dropped, and reduced to six digits.
pub open spec fn truncated(mac: Seq<u8>) -> u32 {
    let at = mac[19] as int % 16;
    let number = (mac[at] as int % 128) * 0x100_0000 + (mac[at + 1] as int) * 0x1_0000 + (mac[at
        + 2] as int) * 0x100 + (mac[at + 3] as int);
    (number % 1_000_000) as u32
}

/// The code of `secret` for the step `counter`.
pub open spec fn code_at(secret: Seq<u8>, counter: u64) -> u32 {
    truncated(hmac_sha1_digest(secret, counter_bytes(counter)))
}

/// The step that holds `now`.
pub open spec fn step_of(now: u64) -> u64 {
    now / STEP_SECONDS
}

/// Whether `code` is the code of the step that holds `now`, of the step
/// before it or of the step after it.
pub open spec fn accepted(secret: Seq<u8>, code: u32, now: u64) -> bool {
    let step = step_of(now);
    ||| code == code_at(secret, step)
    ||| (step >= 1 && code == code_at(secret, (step - 1) as u64))
    ||| code == code_at(secret, (step + 1) as u64)
}

/// The number that a text of decimal digits stands for.
pub open spec fn digits_value(text: Seq<char>) -> nat
    decreases text.len(),
{
    if text.len() == 0 {
        0
    } else {
        digits_value(text.drop_last()) * 10 + digit_of(text.last()) as nat
    }
}

/// The digit that a character stands for, where it is one.
pub open spec fn digit_of(c: char) -> int {
    choose|d: int| 0 <= d < 10 && digit_char(d) == c
}

/// Whether the character is a decimal digit.
pub open spec fn is_digit(c: char) -> bool {
    exists|d: int| 0 <= d < 10 && #[trigger] digit_char(d) == c
}

/// Ten to the power of `n`, for the lengths that a code passes through.
pub open spec fn power_of_ten(n: int) -> int {
    if n <= 0 {
        1
    } else if n == 1 {
        10
    } else if n == 2 {
        100
    } else if n == 3 {
        1_000
    } else if n == 4 {
        10_000
    } else if n == 5 {
        100_000
    } else {
        1_000_000
    }
}

/// What a presented text is as a code: six decimal digits give their number.
/// Any other text gives `MODULUS`, which no step has as its code.
pub open spec fn code_of(text: Seq<char>) -> u32 {
    if text.len() == 6 && (forall|i: int| 0 <= i < 6 ==> is_digit(#[trigger] text[i])) {
        digits_value(text) as u32
    } else {
        MODULUS
    }
}

fn digit_value(c: char) -> (r: Option<u32>)
    ensures
        match r {
            Some(d) => is_digit(c) && d == digit_of(c) && d < 10,
            None => !is_digit(c),
        },
{
    let r: Option<u32> = if c == '0' {
        Some(0)
    } else if c == '1' {
        Some(1)
    } else if c == '2' {
        Some(2)
    } else if c == '3' {
        Some(3)
    } else if c == '4' {
        Some(4)
    } else if c == '5' {
        Some(5)
    } else if c == '6' {
        Some(6)
    } else if c == '7' {
        Some(7)
    } else if c == '8' {
        Some(8)
    } else if c == '9' {
        Some(9)
    } else {
        None
    };
    proof {
        match r {
            Some(d) => {
                assert(digit_char(d as int) == c);
            },
            None => {},
        }
    }
    r
}

/// Reads a presented second-factor code.
pub fn read_code(text: &str) -> (code: u32)
    ensures
        code == code_of(text@),
        code <= MODULUS,
{
    if text.unicode_len() != 6 {
        return MODULUS;
    }
    let mut value: u32 = 0;
    let mut i: usize = 0;
    assert(text@.take(0) =~= Seq::<char>::empty());
    while i < 6
        invariant
            text@.len() == 6,
            i <= 6,
            value == digits_value(text@.take(i as int)),
            value < power_of_ten(i as int),
            forall|j: int| 0 <= j < i ==> is_digit(#[trigger] text@[j]),
        decreases 6 - i,
    {
        assert(text@.take(i + 1).drop_last() =~= text@.take(i as int));
        assert(text@.take(i + 1).last() == text@[i as int]);
        match digit_value(text.get_char(i)) {
            Some(d) => {
                value = value * 10 + d;
            },
            None => {
                return MODULUS;
            },
        }
        i += 1;
    }
    assert(text@.take(6) =~= text@);
    value
}

/// Writes the counter as eight bytes, the most significant first.
pub fn counter_to_bytes(counter: u64) -> (bytes: Vec<u8>)
    ensures
        bytes@ == counter_bytes(counter),
{
    let mut bytes: Vec<u8> = Vec::new();
    bytes.push(((counter / 0x100_0000_0000_0000) % 256) as u8);
    bytes.push(((counter / 0x1_0000_0000_0000) % 256) as u8);
    bytes.push(((counter / 0x100_0000_0000) % 256) as u8);
    bytes.push(((counter / 0x1_0000_0000) % 256) as u8);
    bytes.push(((counter / 0x100_0000) % 256) as u8);
    bytes.push(((counter / 0x1_0000) % 256) as u8);
    bytes.push(((counter / 0x100) % 256) as u8);
    bytes.push((counter % 256) as u8);
    assert(bytes@ =~= counter_bytes(counter));
    bytes
}

/// Reads the six-digit code out of a MAC of 20 bytes.
pub fn truncate(mac: &Vec<u8>) -> (code: u32)
    requires
        mac@.len() == 20,
    ensures
        code == truncated(mac@),
        code < MODULUS,
{
    let at: usize = (mac[19] % 16) as usize;
    let number: u32 = (mac[at] % 128) as u32 * 0x100_0000 + (mac[at + 1] as u32) * 0x1_0000 + (
    mac[at + 2] as u32) * 0x100 + (mac[at + 3] as u32);
    number % 1_000_000
}

/// Computes the code of `secret` for the step `counter`.
pub fn code_for(secret: &Vec<u8>, counter: u64) -> (code: u32)
    ensures
        code == code_at(secret@, counter),
        code < MODULUS,
{
    let message = counter_to_bytes(counter);
    let mac = hmac_sha1(secret, &message);
    truncate(&mac)
}

/// Checks a presented code at `now`, with a tolerance of one step to either
/// side for clocks that drift.
pub fn accepts(secret: &Vec<u8>, code: u32, now: u64) -> (r: bool)
    ensures
        r == accepted(secret@, code, now),
{
    let step: u64 = now / STEP_SECONDS;
    let current = code_for(secret, step) == code;
    let before = step >= 1 && code_for(secret, step - 1) == code;
    let after = code_for(secret, step + 1) == code;
    current || before || after
}

/// A code of more than six digits is never accepted.
pub proof fn lemma_long_code_refused(secret: Seq<u8>, code: u32, now: u64)
    requires
        code >= MODULUS,
    ensures
        !accepted(secret, code, now),
{
}

} // verus!
