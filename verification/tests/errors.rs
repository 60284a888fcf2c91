use sso_core::handlers::{classify, frame, index, reply, Cause, Error, Reply};
use sso_core::json::Field;

fn body_of(error: &Error) -> (u16, serde_json::Value) {
    let reply = error.respond_to().unwrap();
    (reply.status, serde_json::from_str(&reply.body).unwrap())
}

fn check(error: Error, status: u16, errno: &str, errmsg: &str, name: &str) {
    let (got, body) = body_of(&error);
    assert_eq!(got, status);
    assert_eq!(error.status(), status);
    assert_eq!(body["errno"], serde_json::Value::from(errno));
    assert_eq!(body["errmsg"], serde_json::Value::from(errmsg));
    assert_eq!(error.errmsg(), errmsg);
    assert_eq!(error.errno().to_string(), errno);
    assert_eq!(error.description(), name);
}

#[test]
fn every_error_has_its_status_number_and_message() {
    check(Error::IO, 500, "50000000", "internal server io error", "IO");
    check(
        Error::StorageUnavailable,
        500,
        "50000000",
        "internal server storage error",
        "StorageUnavailable",
    );
    check(Error::Internal, 500, "50000002", "internal server error", "Internal");
    check(Error::Jwt, 401, "50000003", "internal server error", "Jwt");
    check(Error::Parse, 500, "50000004", "internal server error", "Parse");
    check(Error::Utf8, 500, "50000005", "internal server error", "Utf8");
    check(Error::Params, 400, "50000006", "internal server error", "Params");
    check(Error::Privilege, 401, "50000008", "internal server error", "Privilege");
    check(Error::Forbidden, 403, "40300001", "action is forbidden", "Forbidden");
    check(Error::Conflict, 409, "40900001", "internal server error", "Conflict");
    check(Error::AccountNotFound, 401, "40100001", "invalid credential", "AccountNotFound");
    check(Error::BadCredential, 401, "40100001", "invalid credential", "BadCredential");
    check(
        Error::SecondFactorRequired,
        401,
        "40100002",
        "second factor required",
        "SecondFactorRequired",
    );
    check(Error::BadSecondFactor, 401, "40100003", "invalid credential", "BadSecondFactor");
    check(Error::AccountDisabled, 403, "40300002", "account is disabled", "AccountDisabled");
    check(Error::InsufficientScope, 403, "40300003", "insufficient scope", "InsufficientScope");
    check(Error::TicketNotFound, 404, "404000", "internal server error", "TicketNotFound");
    check(Error::ApplicationMismatch, 403, "40300004", "action is forbidden", "ApplicationMismatch");
    check(Error::RefreshRevoked, 401, "40100004", "invalid credential", "RefreshRevoked");
    check(
        Error::QuotaExceeded { retry_after: 12 },
        402,
        "402000",
        "reach quota limit, need payment",
        "QuotaExceeded",
    );
    check(
        Error::ValidationError { field: "scope".to_string() },
        400,
        "40000000",
        "invalid paramemter",
        "ValidationError",
    );
}

#[test]
fn plain_errors_have_two_members() {
    let (_, body) = body_of(&Error::TicketNotFound);
    assert_eq!(body.as_object().unwrap().len(), 2);
}

#[test]
fn validation_error_names_the_field() {
    let (status, body) = body_of(&Error::ValidationError { field: "pass\"word".to_string() });
    assert_eq!(status, 400);
    assert_eq!(body["field"], serde_json::Value::from("pass\"word"));
    assert_eq!(body.as_object().unwrap().len(), 3);
}

#[test]
fn spent_quota_says_how_long_to_wait() {
    let (status, body) = body_of(&Error::QuotaExceeded { retry_after: 42 });
    assert_eq!(status, 402);
    assert_eq!(body["retry_after"], serde_json::Value::from(42u64));
    assert_eq!(body.as_object().unwrap().len(), 3);
}

#[test]
fn unknown_account_looks_like_a_wrong_password() {
    let unknown = Error::AccountNotFound.respond_to().unwrap();
    let wrong = Error::BadCredential.respond_to().unwrap();
    assert_eq!(unknown, wrong);
}

#[test]
fn client_kinds_have_numbers_of_their_own() {
    let kinds = vec![
        Error::BadCredential,
        Error::BadSecondFactor,
        Error::AccountDisabled,
        Error::InsufficientScope,
        Error::TicketNotFound,
        Error::ApplicationMismatch,
        Error::RefreshRevoked,
        Error::QuotaExceeded { retry_after: 0 },
        Error::StorageUnavailable,
        Error::ValidationError { field: String::new() },
    ];
    for (i, a) in kinds.iter().enumerate() {
        for (j, b) in kinds.iter().enumerate() {
            assert_eq!(a.errno() == b.errno(), i == j);
        }
    }
}

#[test]
fn frame_puts_the_body_under_the_status() {
    assert_eq!(
        frame(201, Some("{}".to_string())),
        Ok(Reply { status: 201, body: "{}".to_string() })
    );
    assert_eq!(frame(201, None), Err(500));
}

#[test]
fn reply_writes_the_members() {
    let fields = vec![
        ("code".to_string(), Field::Text("abc".to_string())),
        ("expires_at".to_string(), Field::Number(1120)),
        ("nothing".to_string(), Field::Other),
    ];
    let reply = reply(200, &fields).unwrap();
    assert_eq!(reply.status, 200);
    let body: serde_json::Value = serde_json::from_str(&reply.body).unwrap();
    assert_eq!(body["code"], serde_json::Value::from("abc"));
    assert_eq!(body["expires_at"], serde_json::Value::from(1120u64));
    assert_eq!(body["nothing"], serde_json::Value::Null);
    assert_eq!(body.as_object().unwrap().len(), 3);
}

#[test]
fn reply_keeps_the_last_of_two_members_of_one_name() {
    let fields = vec![
        ("n".to_string(), Field::Number(1)),
        ("n".to_string(), Field::Number(2)),
    ];
    let reply = reply(200, &fields).unwrap();
    assert_eq!(reply.body, "{\"n\":2}");
}

#[test]
fn landing_page_greets() {
    let context = index();
    assert_eq!(context.title(), "Feblr SSO");
    assert_eq!(context.welcome(), "Welcome to Feblr SSO");
}

fn database(code: Option<&str>) -> Cause {
    Cause::Database { sql_state: code.map(|c| c.to_string()) }
}

#[test]
fn every_cause_becomes_its_kind() {
    assert_eq!(classify(Cause::Io), Error::IO);
    assert_eq!(classify(Cause::Pool), Error::StorageUnavailable);
    assert_eq!(classify(Cause::Redis), Error::StorageUnavailable);
    assert_eq!(classify(Cause::NotFound), Error::TicketNotFound);
    assert_eq!(
        classify(Cause::QuotaLimit { retry_after: 9 }),
        Error::QuotaExceeded { retry_after: 9 }
    );
    assert_eq!(
        classify(Cause::InvalidParam { field: "email".to_string() }),
        Error::ValidationError { field: "email".to_string() }
    );
    assert_eq!(classify(Cause::Model), Error::Internal);
    assert_eq!(classify(Cause::Jwt), Error::Jwt);
    assert_eq!(classify(Cause::Hex), Error::Privilege);
    assert_eq!(classify(Cause::Url), Error::Parse);
    assert_eq!(classify(Cause::Utf8), Error::Utf8);
}

#[test]
fn unique_violation_is_a_conflict_and_no_other_code_is() {
    assert_eq!(postgres::error::SqlState::UNIQUE_VIOLATION.code(), "23505");
    assert_eq!(classify(database(Some("23505"))), Error::Conflict);
    assert_eq!(classify(database(Some("23503"))), Error::Internal);
    assert_eq!(classify(database(Some("2350"))), Error::Internal);
    assert_eq!(classify(database(Some("235050"))), Error::Internal);
    assert_eq!(classify(database(Some(""))), Error::Internal);
    assert_eq!(classify(database(None)), Error::Internal);
    let conflict = classify(database(Some("23505"))).respond_to().unwrap();
    assert_eq!(conflict.status, 409);
    let other = classify(database(None)).respond_to().unwrap();
    assert_eq!(other.status, 500);
    let body: serde_json::Value = serde_json::from_str(&other.body).unwrap();
    assert_eq!(body["errno"], serde_json::Value::from("50000002"));
}

#[test]
fn store_failures_answer_alike() {
    let pool = classify(Cause::Pool).respond_to().unwrap();
    let redis = classify(Cause::Redis).respond_to().unwrap();
    assert_eq!(pool, redis);
    assert_eq!(pool.status, 500);
}

#[test]
fn reply_is_always_written() {
    let odd = "\u{0}\"\\\n\u{7f}\u{1f600}";
    let reply = Error::ValidationError { field: odd.to_string() }.respond_to().unwrap();
    let body: serde_json::Value = serde_json::from_str(&reply.body).unwrap();
    assert_eq!(body["field"], serde_json::Value::from(odd));
    assert!(Error::QuotaExceeded { retry_after: u64::MAX }.respond_to().is_ok());
    assert_eq!(reply_of_nothing(), "{}");
}

fn reply_of_nothing() -> String {
    reply(204, &Vec::new()).unwrap().body
}
