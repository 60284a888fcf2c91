use sso_core::authorize::create_ticket;
use sso_core::credential::{Account, AccountStatus, Credential, HashParams};
use sso_core::exchange::{exchange, refresh, Application};
use sso_core::handlers::Error;
use sso_core::permission::Role;
use sso_core::quota::{guard, Identity, QuotaStore, RouteLimit};
use sso_core::refresh::RefreshStore;
use sso_core::scope::ScopeSet;
use sso_core::ticket::TicketStore;
use sso_core::token::verify;

fn names(list: &[&str]) -> Vec<String> {
    list.iter().map(|s| s.to_string()).collect()
}

fn scopes(list: &[&str]) -> ScopeSet {
    ScopeSet::from_names(&names(list)).unwrap()
}

fn secret_of(text: &[u8]) -> Credential {
    let params = HashParams::new(1, 1, 8).unwrap();
    Credential::derive(text, b"saltsalt".to_vec(), params).unwrap()
}

fn account_a1() -> Account {
    Account {
        id: "a1".to_string(),
        credential: secret_of(b"p"),
        second_factor: None,
        status: AccountStatus::Active,
    }
}

fn app1() -> Application {
    Application {
        id: "app1".to_string(),
        secret: secret_of(b"client-secret"),
        redirect: "https://app1.example/callback".to_string(),
        allowed: scopes(&["read", "write"]),
    }
}

fn member_roles() -> Vec<Role> {
    vec![Role { name: "member".to_string(), grants: scopes(&["read"]) }]
}

#[test]
fn ticket_is_issued_exchanged_and_then_gone() {
    let account = account_a1();
    let app = app1();
    let roles = member_roles();
    let held = names(&["member"]);
    let requested = scopes(&["read"]);
    let mut tickets = TicketStore::new();
    let mut refreshes = RefreshStore::new();
    let key = b"signing key";

    let issued = create_ticket(
        &mut tickets,
        Some(&account),
        b"p",
        None,
        Some(&app),
        &roles,
        &held,
        &requested,
        1000,
    )
    .unwrap();
    assert_eq!(issued.expires_at, 1120);
    assert_eq!(issued.code.len(), 32);
    {
        let ticket = tickets.peek(&issued.code).unwrap();
        assert_eq!(ticket.scopes.names(), names(&["read"]));
        assert_eq!(ticket.account, "a1");
        assert_eq!(ticket.application, "app1");
        assert_eq!(ticket.issued_at, 1000);
        assert!(!ticket.consumed);
    }

    let pair = exchange(
        &mut tickets,
        &mut refreshes,
        &issued.code,
        Some(&app),
        b"client-secret",
        key,
        1010,
    )
    .unwrap();
    assert_eq!(pair.expires_in, 3600);
    let claims = verify(&pair.access_token, key, 1011).unwrap();
    assert_eq!(claims.scopes.names(), names(&["read"]));
    assert_eq!(claims.subject, "a1");
    assert_eq!(claims.application, "app1");
    assert_eq!(claims.issued_at, 1010);
    assert_eq!(claims.expires_at, 4610);
    {
        let record = refreshes.peek(&pair.refresh_token).unwrap();
        assert_eq!(record.scopes.names(), names(&["read"]));
        assert_eq!(record.lineage, 0);
        assert!(!record.revoked);
        assert_eq!(record.expires_at, 1010 + 2_592_000);
    }

    let again = exchange(
        &mut tickets,
        &mut refreshes,
        &issued.code,
        Some(&app),
        b"client-secret",
        key,
        1012,
    );
    assert_eq!(again, Err(Error::TicketNotFound));
}

#[test]
fn fourth_call_in_a_minute_is_refused_and_the_next_minute_is_fresh() {
    let rule = RouteLimit::new("/tickets".to_string(), 3, 60).unwrap();
    let who = Identity::Account("a1".to_string());
    let mut store = QuotaStore::new();
    assert_eq!(guard(&mut store, &who, &rule, 600), Ok(2));
    assert_eq!(guard(&mut store, &who, &rule, 601), Ok(1));
    assert_eq!(guard(&mut store, &who, &rule, 602), Ok(0));
    assert_eq!(guard(&mut store, &who, &rule, 603), Err(Error::QuotaExceeded { retry_after: 57 }));
    assert_eq!(guard(&mut store, &who, &rule, 660), Ok(2));
}

#[test]
fn many_attempts_for_one_code_succeed_once() {
    let account = account_a1();
    let app = app1();
    let mut tickets = TicketStore::new();
    let mut refreshes = RefreshStore::new();
    let issued = create_ticket(
        &mut tickets,
        Some(&account),
        b"p",
        None,
        Some(&app),
        &member_roles(),
        &names(&["member"]),
        &scopes(&["read"]),
        50,
    )
    .unwrap();
    let mut won = 0;
    let mut lost = 0;
    for attempt in 0..10u64 {
        match exchange(
            &mut tickets,
            &mut refreshes,
            &issued.code,
            Some(&app),
            b"client-secret",
            b"k",
            60 + attempt,
        ) {
            Ok(_) => won += 1,
            Err(e) => {
                assert_eq!(e, Error::TicketNotFound);
                lost += 1;
            }
        }
    }
    assert_eq!(won, 1);
    assert_eq!(lost, 9);
}

#[test]
fn issued_scopes_lie_within_allowed_and_permitted() {
    let account = account_a1();
    let app = app1();
    let roles = vec![
        Role { name: "member".to_string(), grants: scopes(&["read", "profile"]) },
        Role { name: "admin".to_string(), grants: scopes(&["write", "delete"]) },
    ];
    let mut tickets = TicketStore::new();
    let issued = create_ticket(
        &mut tickets,
        Some(&account),
        b"p",
        None,
        Some(&app),
        &roles,
        &names(&["member"]),
        &scopes(&["write", "profile", "read", "delete"]),
        7,
    )
    .unwrap();
    let ticket = tickets.peek(&issued.code).unwrap();
    assert_eq!(ticket.scopes.names(), names(&["read"]));
    assert!(ticket.scopes.is_subset_of(&app.allowed));
    assert!(ticket.scopes.is_subset_of(&roles[0].grants));
}

#[test]
fn refresh_token_works_once() {
    let account = account_a1();
    let app = app1();
    let mut tickets = TicketStore::new();
    let mut refreshes = RefreshStore::new();
    let key = b"signing key";
    let issued = create_ticket(
        &mut tickets,
        Some(&account),
        b"p",
        None,
        Some(&app),
        &member_roles(),
        &names(&["member"]),
        &scopes(&["read"]),
        100,
    )
    .unwrap();
    let first =
        exchange(&mut tickets, &mut refreshes, &issued.code, Some(&app), b"client-secret", key, 101)
            .unwrap();
    let second = refresh(&mut refreshes, &first.refresh_token, key, 5000).unwrap();
    assert_ne!(second.refresh_token, first.refresh_token);
    assert_eq!(second.expires_in, 3600);
    let claims = verify(&second.access_token, key, 5001).unwrap();
    assert_eq!(claims.scopes.names(), names(&["read"]));
    assert_eq!(claims.subject, "a1");
    assert_eq!(claims.issued_at, 5000);
    assert_eq!(claims.expires_at, 8600);
    {
        let old = refreshes.peek(&first.refresh_token).unwrap();
        assert!(old.revoked);
        let new = refreshes.peek(&second.refresh_token).unwrap();
        assert!(!new.revoked);
        assert_eq!(new.lineage, 1);
        assert_eq!(new.expires_at, 5000 + 2_592_000);
    }
    assert_eq!(refresh(&mut refreshes, &first.refresh_token, key, 5002), Err(Error::RefreshRevoked));
    let third = refresh(&mut refreshes, &second.refresh_token, key, 5003).unwrap();
    assert_eq!(refreshes.peek(&third.refresh_token).unwrap().lineage, 2);
}

#[test]
fn access_token_fails_once_expired() {
    let account = account_a1();
    let app = app1();
    let mut tickets = TicketStore::new();
    let mut refreshes = RefreshStore::new();
    let key = b"signing key";
    let issued = create_ticket(
        &mut tickets,
        Some(&account),
        b"p",
        None,
        Some(&app),
        &member_roles(),
        &names(&["member"]),
        &scopes(&["read"]),
        100,
    )
    .unwrap();
    let pair =
        exchange(&mut tickets, &mut refreshes, &issued.code, Some(&app), b"client-secret", key, 100)
            .unwrap();
    assert!(verify(&pair.access_token, key, 100).is_ok());
    assert!(verify(&pair.access_token, key, 3699).is_ok());
    assert_eq!(verify(&pair.access_token, key, 3700).err(), Some(Error::Jwt));
    assert_eq!(verify(&pair.access_token, key, 1_000_000).err(), Some(Error::Jwt));
}

#[test]
fn quota_counts_each_identity_and_route_apart() {
    let tickets = RouteLimit::new("/tickets".to_string(), 1, 60).unwrap();
    let tokens = RouteLimit::new("/tokens".to_string(), 1, 60).unwrap();
    let a1 = Identity::Account("a1".to_string());
    let a2 = Identity::Account("a2".to_string());
    let anon = Identity::Anonymous("a1".to_string());
    let mut store = QuotaStore::new();
    assert_eq!(guard(&mut store, &a1, &tickets, 10), Ok(0));
    assert_eq!(guard(&mut store, &a2, &tickets, 10), Ok(0));
    assert_eq!(guard(&mut store, &anon, &tickets, 10), Ok(0));
    assert_eq!(guard(&mut store, &a1, &tokens, 10), Ok(0));
    assert_eq!(guard(&mut store, &a1, &tickets, 59), Err(Error::QuotaExceeded { retry_after: 1 }));
    assert_eq!(guard(&mut store, &a1, &tickets, 60), Ok(0));
}

#[test]
fn request_after_the_limit_is_refused_in_every_window() {
    for limit in [0u64, 1, 2, 5, 17] {
        let rule = RouteLimit::new("/tokens".to_string(), limit, 100).unwrap();
        let who = Identity::Anonymous("10.0.0.1".to_string());
        let mut store = QuotaStore::new();
        for window in [0u64, 1, 2, 9] {
            let start = window * 100;
            for request in 1..=limit {
                let now = start + (request * 7) % 100;
                assert_eq!(guard(&mut store, &who, &rule, now), Ok(limit - request));
            }
            assert_eq!(
                guard(&mut store, &who, &rule, start + 99),
                Err(Error::QuotaExceeded { retry_after: 1 })
            );
            assert_eq!(
                guard(&mut store, &who, &rule, start),
                Err(Error::QuotaExceeded { retry_after: 100 })
            );
        }
    }
}
