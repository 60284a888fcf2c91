use sso_core::handlers::Error;
use sso_core::json::{find, Field};
use sso_core::scope::ScopeSet;
use sso_core::token::{explain, sign, validate, verify, Claims, Refusal};

fn list(names: &[&str]) -> Vec<String> {
    names.iter().map(|s| s.to_string()).collect()
}

fn claims(now: u64) -> Claims {
    Claims::issue(
        "a1".to_string(),
        "app1".to_string(),
        ScopeSet::from_names(&list(&["read", "write"])).unwrap(),
        now,
    )
}

fn member(name: &str, field: Field) -> (String, Field) {
    (name.to_string(), field)
}

fn text(value: &str) -> Field {
    Field::Text(value.to_string())
}

fn full() -> Vec<(String, Field)> {
    vec![
        member("sub", text("a1")),
        member("app", text("app1")),
        member("scope", text("read write")),
        member("iat", Field::Number(10)),
        member("exp", Field::Number(20)),
    ]
}

fn without(name: &str) -> Vec<(String, Field)> {
    full().into_iter().filter(|(n, _)| n != name).collect()
}

fn with(name: &str, field: Field) -> Vec<(String, Field)> {
    let mut fields = without(name);
    fields.push(member(name, field));
    fields
}

fn foreign_token(object: serde_json::Map<String, serde_json::Value>, key: &[u8]) -> String {
    jsonwebtoken::encode(
        &jsonwebtoken::Header::default(),
        &object,
        &jsonwebtoken::EncodingKey::from_secret(key),
    )
    .unwrap()
}

#[test]
fn issued_claims_last_an_hour() {
    let c = claims(1000);
    assert_eq!(c.issued_at, 1000);
    assert_eq!(c.expires_at, 4600);
    assert_eq!(c.subject, "a1");
    assert_eq!(c.application, "app1");
}

#[test]
fn claims_are_written_as_five_members() {
    let fields = claims(1000).to_fields();
    assert_eq!(
        fields,
        vec![
            member("sub", text("a1")),
            member("app", text("app1")),
            member("scope", text("read write")),
            member("iat", Field::Number(1000)),
            member("exp", Field::Number(4600)),
        ]
    );
}

#[test]
fn claims_are_read_back() {
    let c = Claims::from_fields(&claims(1000).to_fields()).unwrap();
    assert_eq!(c.subject, "a1");
    assert_eq!(c.application, "app1");
    assert_eq!(c.scopes.names(), list(&["read", "write"]));
    assert_eq!(c.issued_at, 1000);
    assert_eq!(c.expires_at, 4600);
}

#[test]
fn claims_need_every_member_of_the_right_kind() {
    assert!(Claims::from_fields(&full()).is_some());
    for name in ["sub", "app", "scope", "iat", "exp"] {
        assert!(Claims::from_fields(&without(name)).is_none());
        assert!(Claims::from_fields(&with(name, Field::Other)).is_none());
    }
    assert!(Claims::from_fields(&with("sub", Field::Number(1))).is_none());
    assert!(Claims::from_fields(&with("exp", text("20"))).is_none());
    assert!(Claims::from_fields(&with("exp", Field::Number(10))).is_none());
    assert!(Claims::from_fields(&with("exp", Field::Number(11))).is_some());
    assert!(Claims::from_fields(&Vec::new()).is_none());
}

#[test]
fn first_member_of_a_name_counts() {
    let mut fields = full();
    fields.push(member("sub", text("other")));
    assert_eq!(Claims::from_fields(&fields).unwrap().subject, "a1");
    assert_eq!(find(&fields, "sub"), Some(&text("a1")));
    assert_eq!(find(&fields, "exp"), Some(&Field::Number(20)));
    assert_eq!(find(&fields, "none"), None);
}

#[test]
fn signed_token_verifies_under_its_key() {
    let token = sign(&claims(1000), b"key").unwrap();
    assert_eq!(token.split('.').count(), 3);
    let c = verify(&token, b"key", 1000).unwrap();
    assert_eq!(c.subject, "a1");
    assert_eq!(c.application, "app1");
    assert_eq!(c.scopes.names(), list(&["read", "write"]));
    assert_eq!(c.issued_at, 1000);
    assert_eq!(c.expires_at, 4600);
}

#[test]
fn signed_token_is_a_json_web_token() {
    let token = sign(&claims(1000), b"key").unwrap();
    let mut validation = jsonwebtoken::Validation::new(jsonwebtoken::Algorithm::HS256);
    validation.validate_exp = false;
    let data = jsonwebtoken::decode::<serde_json::Value>(
        &token,
        &jsonwebtoken::DecodingKey::from_secret(b"key"),
        &validation,
    )
    .unwrap();
    assert_eq!(data.claims["sub"], serde_json::Value::from("a1"));
    assert_eq!(data.claims["app"], serde_json::Value::from("app1"));
    assert_eq!(data.claims["scope"], serde_json::Value::from("read write"));
    assert_eq!(data.claims["iat"], serde_json::Value::from(1000u64));
    assert_eq!(data.claims["exp"], serde_json::Value::from(4600u64));
}

#[test]
fn token_fails_under_another_key() {
    let token = sign(&claims(1000), b"key").unwrap();
    assert_eq!(verify(&token, b"other", 1000).err(), Some(Error::Jwt));
    assert_eq!(verify(&token, b"", 1000).err(), Some(Error::Jwt));
}

#[test]
fn changed_token_fails() {
    let token = sign(&claims(1000), b"key").unwrap();
    let other = sign(&claims(2000), b"key").unwrap();
    let parts: Vec<&str> = token.split('.').collect();
    let others: Vec<&str> = other.split('.').collect();
    let forged = format!("{}.{}.{}", parts[0], others[1], parts[2]);
    assert_eq!(verify(&forged, b"key", 1000).err(), Some(Error::Jwt));
    assert_eq!(verify("", b"key", 1000).err(), Some(Error::Jwt));
    assert_eq!(verify("a.b.c", b"key", 1000).err(), Some(Error::Jwt));
    assert_eq!(verify(&token[..token.len() - 2], b"key", 1000).err(), Some(Error::Jwt));
}

#[test]
fn token_expires_at_its_expiry() {
    let token = sign(&claims(1000), b"key").unwrap();
    assert!(verify(&token, b"key", 0).is_ok());
    assert!(verify(&token, b"key", 4599).is_ok());
    assert_eq!(verify(&token, b"key", 4600).err(), Some(Error::Jwt));
    assert_eq!(verify(&token, b"key", 4601).err(), Some(Error::Jwt));
    assert_eq!(verify(&token, b"key", u64::MAX).err(), Some(Error::Jwt));
}

#[test]
fn foreign_token_without_our_claims_fails() {
    let mut object = serde_json::Map::new();
    object.insert("sub".to_string(), serde_json::Value::from("a1"));
    object.insert("exp".to_string(), serde_json::Value::from(5000u64));
    let token = foreign_token(object, b"key");
    assert_eq!(verify(&token, b"key", 1000).err(), Some(Error::Jwt));
}

#[test]
fn foreign_token_with_our_claims_verifies() {
    let mut object = serde_json::Map::new();
    object.insert("sub".to_string(), serde_json::Value::from("a9"));
    object.insert("app".to_string(), serde_json::Value::from("app9"));
    object.insert("scope".to_string(), serde_json::Value::from("x  y x"));
    object.insert("iat".to_string(), serde_json::Value::from(1u64));
    object.insert("exp".to_string(), serde_json::Value::from(5000u64));
    object.insert("extra".to_string(), serde_json::Value::from(vec![1, 2]));
    let token = foreign_token(object.clone(), b"key");
    let c = verify(&token, b"key", 4999).unwrap();
    assert_eq!(c.subject, "a9");
    assert_eq!(c.scopes.names(), list(&["x", "y"]));
    assert_eq!(c.expires_at, 5000);
    object.insert("exp".to_string(), serde_json::Value::from(-5i64));
    assert_eq!(verify(&foreign_token(object.clone(), b"key"), b"key", 0).err(), Some(Error::Jwt));
    object.insert("exp".to_string(), serde_json::Value::from("5000"));
    assert_eq!(verify(&foreign_token(object, b"key"), b"key", 0).err(), Some(Error::Jwt));
}

#[test]
fn validate_checks_the_expiry() {
    assert_eq!(validate(None, 0).err(), Some(Error::Jwt));
    assert_eq!(validate(Some(claims(10)), 3610).err(), Some(Error::Jwt));
    let c = validate(Some(claims(10)), 3609).unwrap();
    assert_eq!(c.expires_at, 3610);
    assert_eq!(c.subject, "a1");
}

#[test]
fn refused_token_has_a_reason() {
    let token = sign(&claims(1000), b"key").unwrap();
    assert_eq!(explain(&token, b"key", 1000), None);
    assert_eq!(explain(&token, b"key", 4599), None);
    assert_eq!(explain(&token, b"key", 4600), Some(Refusal::Expired));
    assert_eq!(explain(&token, b"other", 1000), Some(Refusal::Signature));
    assert_eq!(explain("junk", b"key", 1000), Some(Refusal::Signature));
    let mut object = serde_json::Map::new();
    object.insert("sub".to_string(), serde_json::Value::from("a1"));
    let foreign = foreign_token(object, b"key");
    assert_eq!(explain(&foreign, b"key", 1000), Some(Refusal::Claims));
    assert_eq!(explain(&foreign, b"nope", 1000), Some(Refusal::Signature));
}

#[test]
fn signing_succeeds_for_any_claims_and_key() {
    let odd = Claims::issue(
        "a\"\\\u{0}\u{1f600}".to_string(),
        String::new(),
        ScopeSet::new(),
        0,
    );
    for key in [&b""[..], &b"k"[..], &[0u8; 200][..]] {
        let token = sign(&odd, key).unwrap();
        let read = verify(&token, key, 0).unwrap();
        assert_eq!(read.subject, odd.subject);
        assert_eq!(read.application, "");
        assert!(read.scopes.is_empty());
    }
}
