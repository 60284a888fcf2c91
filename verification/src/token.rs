//! Access tokens: signed, self-describing, short-lived. The claims are a
//! flat JSON object; `jsonwebtoken` signs and checks it with HMAC-SHA256.

use vstd::prelude::*;
use vstd::string::StringExecFns;
use crate::handlers::Error;
use crate::json::{find, lookup, members, Field, FieldValue};
use crate::scope::{dedup, joined, lemma_words_of_joined, valid_scopes, words, ScopeSet};
use crate::ticket::MAX_CLOCK;

verus! {

/// How long an access token is valid, in seconds.
pub const ACCESS_LIFETIME: u64 = 3600;

/// What an access token says.
#[derive(Debug)]
pub struct Claims {
    /// The account the token speaks for.
    pub subject: String,
    /// The application the token was issued to.
    pub application: String,
    pub scopes: ScopeSet,
    pub issued_at: u64,
    pub expires_at: u64,
}

/// Claims as a mathematical value.
pub struct ClaimsView {
    pub subject: Seq<char>,
    pub application: Seq<char>,
    pub scopes: Seq<Seq<char>>,
    pub issued_at: u64,
    pub expires_at: u64,
}

impl View for Claims {
    type V = ClaimsView;

    open spec fn view(&self) -> ClaimsView {
        ClaimsView {
            subject: self.subject@,
            application: self.application@,
            scopes: self.scopes@,
            issued_at: self.issued_at,
            expires_at: self.expires_at,
        }
    }
}

/// The claims of a token issued at `now`.
pub open spec fn claims_at(
    subject: Seq<char>,
    application: Seq<char>,
    scopes: Seq<Seq<char>>,
    now: u64,
) -> ClaimsView {
    ClaimsView {
        subject,
        application,
        scopes,
        issued_at: now,
        expires_at: (now + ACCESS_LIFETIME) as u64,
    }
}

/// The members of the token's JSON object: `sub`, `app`, `scope` (the names
/// with a space between neighbours), `iat` and `exp`.
pub open spec fn claim_members(claims: ClaimsView) -> Seq<(Seq<char>, FieldValue)> {
    seq![
        ("sub"@, FieldValue::Text(claims.subject)),
        ("app"@, FieldValue::Text(claims.application)),
        ("scope"@, FieldValue::Text(joined(claims.scopes))),
        ("iat"@, FieldValue::Number(claims.issued_at)),
        ("exp"@, FieldValue::Number(claims.expires_at)),
    ]
}

/// The claims in a JSON object, where it has the five members with values
/// of the right kind and an expiry after the time of issue.
pub open spec fn claims_of(object: Seq<(Seq<char>, FieldValue)>) -> Option<ClaimsView> {
    match (
        lookup(object, "sub"@),
        lookup(object, "app"@),
        lookup(object, "scope"@),
        lookup(object, "iat"@),
        lookup(object, "exp"@),
    ) {
        (
            Some(FieldValue::Text(subject)),
            Some(FieldValue::Text(application)),
            Some(FieldValue::Text(scope)),
            Some(FieldValue::Number(issued_at)),
            Some(FieldValue::Number(expires_at)),
        ) => if issued_at < expires_at {
            Some(
                ClaimsView {
                    subject,
                    application,
                    scopes: dedup(words(scope)),
                    issued_at,
                    expires_at,
                },
            )
        } else {
            None
        },
        _ => None,
    }
}

/// The token that `jsonwebtoken` writes for a JSON object and a key.
pub uninterp spec fn signed_token(object: Seq<(Seq<char>, FieldValue)>, key: Seq<u8>) -> Seq<char>;

/// The JSON object of a token whose signature `jsonwebtoken` accepts under
/// a key, where it accepts it.
pub uninterp spec fn verified_object(token: Seq<char>, key: Seq<u8>) -> Option<
    Seq<(Seq<char>, FieldValue)>,
>;

/// `jsonwebtoken::encode` with the default header (HS256) and the key as an
/// HMAC secret, on a `serde_json::Map` filled with the members in order. The
/// token depends on the members and the key alone. The call succeeds: an
/// HMAC secret is of the header's key family, the header and such a map are
/// written as JSON without a failing path, and signing with HS256 has none.
#[verifier::external_body]
fn jwt_encode(fields: &Vec<(String, Field)>, key: &[u8]) -> (r: Option<String>)
    ensures
        r is Some,
        r matches Some(token) ==> token@ == signed_token(members(fields@), key@),
{
    let mut object = serde_json::Map::new();
    for (name, field) in fields.iter() {
        let value = match field {
            Field::Text(s) => serde_json::Value::from(s.as_str()),
            Field::Number(n) => serde_json::Value::from(*n),
            Field::Other => serde_json::Value::Null,
        };
        object.insert(name.clone(), value);
    }
    let key = jsonwebtoken::EncodingKey::from_secret(key);
    jsonwebtoken::encode(&jsonwebtoken::Header::default(), &object, &key).ok()
}

/// `jsonwebtoken::decode` for HS256 with the key as an HMAC secret, into a
/// `serde_json::Map`. The checks that read the clock are switched off, and
/// no claim is required, so the answer depends on the token and the key
/// alone: the object's members where the token is well formed and its
/// signature is the key's, `None` else.
#[verifier::external_body]
fn jwt_decode(token: &str, key: &[u8]) -> (r: Option<Vec<(String, Field)>>)
    ensures
        match r {
            Some(fields) => verified_object(token@, key@) == Some(members(fields@)),
            None => verified_object(token@, key@) is None,
        },
{
    let mut validation = jsonwebtoken::Validation::new(jsonwebtoken::Algorithm::HS256);
    validation.validate_exp = false;
    validation.validate_aud = false;
    validation.required_spec_claims.clear();
    let key = jsonwebtoken::DecodingKey::from_secret(key);
    let data = jsonwebtoken::decode::<serde_json::Map<String, serde_json::Value>>(token, &key, &validation).ok()?;
    Some(data.claims.into_iter().map(|(name, value)| (name, match value {
        serde_json::Value::String(s) => Field::Text(s),
        serde_json::Value::Number(n) => n.as_u64().map_or(Field::Other, Field::Number),
        _ => Field::Other,
    })).collect())
}

/// What checking decoded claims at `now` answers: the claims, unless there
/// are none or their expiry has passed.
pub open spec fn checked(decoded: Option<ClaimsView>, now: u64) -> Result<ClaimsView, Error> {
    match decoded {
        None => Err(Error::Jwt),
        Some(claims) => if now >= claims.expires_at {
            Err(Error::Jwt)
        } else {
            Ok(claims)
        },
    }
}

/// What verifying a token at `now` answers.
pub open spec fn verified(token: Seq<char>, key: Seq<u8>, now: u64) -> Result<ClaimsView, Error> {
    checked(
        match verified_object(token, key) {
            Some(object) => claims_of(object),
            None => None,
        },
        now,
    )
}

impl Claims {
    /// The claims of a token issued at `now`, valid for `ACCESS_LIFETIME`
    /// seconds.
    pub fn issue(subject: String, application: String, scopes: ScopeSet, now: u64) -> (c: Claims)
        requires
            now <= MAX_CLOCK,
        ensures
            c@ == claims_at(subject@, application@, scopes@, now),
            c.issued_at < c.expires_at,
    {
        Claims { subject, application, scopes, issued_at: now, expires_at: now + ACCESS_LIFETIME }
    }

    /// The members of the token's JSON object.
    pub fn to_fields(&self) -> (fields: Vec<(String, Field)>)
        ensures
            members(fields@) == claim_members(self@),
    {
        let mut fields: Vec<(String, Field)> = Vec::new();
        fields.push((String::from_str("sub"), Field::Text(self.subject.clone())));
        fields.push((String::from_str("app"), Field::Text(self.application.clone())));
        fields.push((String::from_str("scope"), Field::Text(self.scopes.to_text())));
        fields.push((String::from_str("iat"), Field::Number(self.issued_at)));
        fields.push((String::from_str("exp"), Field::Number(self.expires_at)));
        assert(members(fields@) =~= claim_members(self@));
        fields
    }

    /// Reads claims out of a JSON object.
    pub fn from_fields(fields: &Vec<(String, Field)>) -> (r: Option<Claims>)
        ensures
            match r {
                Some(c) => claims_of(members(fields@)) == Some(c@),
                None => claims_of(members(fields@)) is None,
            },
    {
        let subject = match find(fields, "sub") {
            Some(Field::Text(s)) => s.clone(),
            _ => {
                return None;
            },
        };
        let application = match find(fields, "app") {
            Some(Field::Text(s)) => s.clone(),
            _ => {
                return None;
            },
        };
        let scopes = match find(fields, "scope") {
            Some(Field::Text(s)) => ScopeSet::parse(s.as_str()),
            _ => {
                return None;
            },
        };
        let issued_at: u64 = match find(fields, "iat") {
            Some(Field::Number(n)) => *n,
            _ => {
                return None;
            },
        };
        let expires_at: u64 = match find(fields, "exp") {
            Some(Field::Number(n)) => *n,
            _ => {
                return None;
            },
        };
        if issued_at < expires_at {
            Some(Claims { subject, application, scopes, issued_at, expires_at })
        } else {
            None
        }
    }
}

/// Signs the claims into an access token.
pub fn sign(claims: &Claims, key: &[u8]) -> (r: Result<String, Error>)
    ensures
        r matches Ok(token) && token@ == signed_token(claim_members(claims@), key@),
{
    let fields = claims.to_fields();
    match jwt_encode(&fields, key) {
        Some(token) => Ok(token),
        None => Err(Error::Jwt),
    }
}

/// Checks decoded claims at `now`: a token without readable claims is
/// refused, and so is one whose expiry has passed.
pub fn validate(decoded: Option<Claims>, now: u64) -> (r: Result<Claims, Error>)
    ensures
        match r {
            Ok(c) => checked(
                match decoded {
                    Some(d) => Some(d@),
                    None => None,
                },
                now,
            ) == Ok::<ClaimsView, Error>(c@) && now < c.expires_at,
            Err(e) => e == Error::Jwt && checked(
                match decoded {
                    Some(d) => Some(d@),
                    None => None,
                },
                now,
            ) is Err,
        },
{
    match decoded {
        None => Err(Error::Jwt),
        Some(claims) => if now >= claims.expires_at {
            Err(Error::Jwt)
        } else {
            Ok(claims)
        },
    }
}

/// Verifies an access token at `now`: the signature must be the key's, the
/// claims must be readable, and the expiry must not have passed.
pub fn verify(token: &str, key: &[u8], now: u64) -> (r: Result<Claims, Error>)
    ensures
        match r {
            Ok(c) => verified(token@, key@, now) == Ok::<ClaimsView, Error>(c@) && now
                < c.expires_at,
            Err(e) => e == Error::Jwt && verified(token@, key@, now) is Err,
        },
{
    let decoded = match jwt_decode(token, key) {
        Some(fields) => Claims::from_fields(&fields),
        None => None,
    };
    validate(decoded, now)
}

/// Why a token is refused, for the server's own records.
#[derive(Debug, PartialEq, Eq, Clone, Copy)]
pub enum Refusal {
    /// The token is malformed, or its signature is not the key's.
    Signature,
    /// The signature is the key's, and the claims cannot be read.
    Claims,
    /// The signature is the key's, and the expiry has passed.
    Expired,
}

/// Why verifying a token at `now` fails, where it fails.
pub open spec fn refusal(token: Seq<char>, key: Seq<u8>, now: u64) -> Option<Refusal> {
    match verified_object(token, key) {
        None => Some(Refusal::Signature),
        Some(object) => match claims_of(object) {
            None => Some(Refusal::Claims),
            Some(claims) => if now >= claims.expires_at {
                Some(Refusal::Expired)
            } else {
                None
            },
        },
    }
}

/// Says why a token is refused at `now`; `None` where it verifies.
pub fn explain(token: &str, key: &[u8], now: u64) -> (r: Option<Refusal>)
    ensures
        r == refusal(token@, key@, now),
        r is None <==> verified(token@, key@, now) is Ok,
{
    match jwt_decode(token, key) {
        None => Some(Refusal::Signature),
        Some(fields) => match Claims::from_fields(&fields) {
            None => Some(Refusal::Claims),
            Some(claims) => if now >= claims.expires_at {
                Some(Refusal::Expired)
            } else {
                None
            },
        },
    }
}

/// Once the expiry has passed, verification fails, also where the signature
/// is valid and the claims are readable: at no time from the expiry on is a
/// token verified.
pub proof fn lemma_expired_token_fails(token: Seq<char>, key: Seq<u8>, now: u64)
    ensures
        verified(token, key, now) matches Ok(claims) ==> now < claims.expires_at,
        (verified_object(token, key) matches Some(object) && claims_of(object) matches Some(
            claims,
        ) && now >= claims.expires_at) ==> verified(token, key, now) == Err::<ClaimsView, Error>(
            Error::Jwt,
        ),
{
}

/// Claims that were written into a JSON object are read back unchanged.
pub proof fn lemma_claims_round_trip(claims: ClaimsView)
    requires
        valid_scopes(claims.scopes),
        claims.issued_at < claims.expires_at,
    ensures
        claims_of(claim_members(claims)) == Some(claims),
{
    reveal_strlit("sub");
    reveal_strlit("app");
    reveal_strlit("scope");
    reveal_strlit("iat");
    reveal_strlit("exp");
    reveal_with_fuel(lookup, 6);
    let object = claim_members(claims);
    let d1 = object.drop_first();
    let d2 = d1.drop_first();
    let d3 = d2.drop_first();
    let d4 = d3.drop_first();
    assert(object[0].0 == "sub"@);
    assert(d1[0].0 == "app"@);
    assert(d2[0].0 == "scope"@);
    assert(d3[0].0 == "iat"@);
    assert(d4[0].0 == "exp"@);
    assert("sub"@[0] == 's' && "app"@[0] == 'a' && "scope"@.len() == 5 && "iat"@[0] == 'i'
        && "exp"@[0] == 'e');
    assert(lookup(object, "sub"@) == Some(FieldValue::Text(claims.subject)));
    assert(lookup(object, "app"@) == Some(FieldValue::Text(claims.application)));
    assert(lookup(object, "scope"@) == Some(FieldValue::Text(joined(claims.scopes))));
    assert(lookup(object, "iat"@) == Some(FieldValue::Number(claims.issued_at)));
    assert(lookup(object, "exp"@) == Some(FieldValue::Number(claims.expires_at)));
    lemma_words_of_joined(claims.scopes);
}

} // verus!
