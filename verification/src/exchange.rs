//! The token exchanger: a ticket for an access token and a refresh token,
//! and a refresh token for the next pair.

use vstd::prelude::*;
use vstd::string::StringExecFns;
use crate::credential::Credential;
use crate::json::{members, Field, FieldValue};
use crate::handlers::Error;
use crate::refresh::{
    first_record, mint_id, rotate_outcome, rotate_rest, usable, RefreshRecord, RefreshStore,
};
use crate::scope::ScopeSet;
use crate::ticket::{take_outcome, Ticket, TicketStore, TicketView, WriteOutcome, MAX_CLOCK};
use crate::token::{claim_members, claims_at, sign, signed_token, Claims, ClaimsView, ACCESS_LIFETIME};

verus! {

/// A registered application.
#[derive(Debug)]
pub struct Application {
    pub id: String,
    /// The hash of the client secret.
    pub secret: Credential,
    pub redirect: String,
    /// The scopes the application may be granted.
    pub allowed: ScopeSet,
}

/// What an exchange or a refresh hands to the client.
#[derive(Debug, PartialEq, Eq)]
pub struct TokenPair {
    pub access_token: String,
    pub refresh_token: String,
    /// The lifetime of the access token, in seconds.
    pub expires_in: u64,
}

/// The members of the JSON body for a token pair.
pub open spec fn pair_members(access_token: Seq<char>, refresh_token: Seq<char>, expires_in: u64) -> Seq<
    (Seq<char>, FieldValue),
> {
    seq![
        ("access_token"@, FieldValue::Text(access_token)),
        ("refresh_token"@, FieldValue::Text(refresh_token)),
        ("expires_in"@, FieldValue::Number(expires_in)),
    ]
}

impl TokenPair {
    /// The members of the JSON body: `access_token`, `refresh_token` and
    /// `expires_in`.
    pub fn to_fields(&self) -> (fields: Vec<(String, Field)>)
        ensures
            members(fields@) == pair_members(
                self.access_token@,
                self.refresh_token@,
                self.expires_in,
            ),
    {
        let mut fields: Vec<(String, Field)> = Vec::new();
        fields.push((String::from_str("access_token"), Field::Text(self.access_token.clone())));
        fields.push((String::from_str("refresh_token"), Field::Text(self.refresh_token.clone())));
        fields.push((String::from_str("expires_in"), Field::Number(self.expires_in)));
        assert(members(fields@) =~= pair_members(
            self.access_token@,
            self.refresh_token@,
            self.expires_in,
        ));
        fields
    }
}

/// Whether the presenter has shown to be the application: the application
/// is registered and the secret is its own.
pub open spec fn presenter_known(application: Option<Application>, secret: Seq<u8>) -> bool {
    application matches Some(app) && app.secret.opened_by(secret)
}

/// The error that the request itself forces on an exchange: a presenter
/// that is not the application, or what the ticket store answers.
pub open spec fn exchange_refusal(
    tickets: Map<Seq<char>, TicketView>,
    code: Seq<char>,
    application: Option<Application>,
    secret: Seq<u8>,
    now: u64,
) -> Option<Error> {
    if !presenter_known(application, secret) {
        Some(Error::ApplicationMismatch)
    } else {
        match take_outcome(tickets, code, application->Some_0.id@, now) {
            Ok(_) => None,
            Err(e) => Some(e),
        }
    }
}

/// What examining a ticket for an exchange answers: the claims of the access
/// token, or why the ticket cannot be exchanged.
pub open spec fn examined(found: Option<TicketView>, application: Seq<char>, now: u64) -> Result<
    ClaimsView,
    Error,
> {
    match found {
        None => Err(Error::TicketNotFound),
        Some(t) => if t.consumed || now >= t.expires_at {
            Err(Error::TicketNotFound)
        } else if t.application != application {
            Err(Error::ApplicationMismatch)
        } else {
            Ok(claims_at(t.account, t.application, t.scopes, now))
        },
    }
}

/// Checks that the presenter is the application it claims to be.
pub fn authenticate(application: Option<&Application>, secret: &[u8]) -> (r: Result<(), Error>)
    ensures
        r == if presenter_known(
            match application {
                Some(app) => Some(*app),
                None => None,
            },
            secret@,
        ) {
            Ok::<(), Error>(())
        } else {
            Err::<(), Error>(Error::ApplicationMismatch)
        },
{
    match application {
        None => Err(Error::ApplicationMismatch),
        Some(app) => if app.secret.matches(secret) {
            Ok(())
        } else {
            Err(Error::ApplicationMismatch)
        },
    }
}

/// Examines what the store holds under a presented code: a ticket that is
/// missing, consumed or expired is not found, one of another application a
/// mismatch; else the claims of the access token are those of the ticket.
pub fn examine(found: Option<&Ticket>, application: &String, now: u64) -> (r: Result<Claims, Error>)
    requires
        now <= MAX_CLOCK,
    ensures
        match r {
            Ok(c) => examined(
                match found {
                    Some(t) => Some(t@),
                    None => None,
                },
                application@,
                now,
            ) == Ok::<ClaimsView, Error>(c@),
            Err(e) => examined(
                match found {
                    Some(t) => Some(t@),
                    None => None,
                },
                application@,
                now,
            ) == Err::<ClaimsView, Error>(e),
        },
{
    match found {
        None => Err(Error::TicketNotFound),
        Some(t) => if t.consumed || now >= t.expires_at {
            Err(Error::TicketNotFound)
        } else if t.application != *application {
            Err(Error::ApplicationMismatch)
        } else {
            Ok(Claims::issue(t.account.clone(), t.application.clone(), t.scopes.duplicate(), now))
        },
    }
}

/// Exchanges a ticket for a token pair. The presenter must be the
/// application the ticket is bound to. The ticket leaves the store in one
/// step, so a code is exchanged once; the refresh record is opened with the
/// ticket's scopes. Where the exchange fails, both stores are as before. An
/// exchange that the request allows fails only where the fresh identifier of
/// the refresh record, which has 36 characters, is taken; that counts as the
/// store being unavailable.
pub fn exchange(
    tickets: &mut TicketStore,
    refreshes: &mut RefreshStore,
    code: &String,
    application: Option<&Application>,
    secret: &[u8],
    key: &[u8],
    now: u64,
) -> (r: Result<TokenPair, Error>)
    requires
        now <= MAX_CLOCK,
    ensures
        match r {
            Ok(pair) => {
                &&& application matches Some(app)
                &&& app.secret.opened_by(secret@)
                &&& take_outcome(old(tickets)@, code@, app.id@, now) matches Ok(t)
                &&& pair.access_token@ == signed_token(
                    claim_members(claims_at(t.account, t.application, t.scopes, now)),
                    key@,
                )
                &&& pair.expires_in == ACCESS_LIFETIME
                &&& !old(refreshes)@.contains_key(pair.refresh_token@)
                &&& final(tickets)@ == old(tickets)@.remove(code@)
                &&& final(refreshes)@ == old(refreshes)@.insert(
                    pair.refresh_token@,
                    first_record(pair.refresh_token@, t.account, t.application, t.scopes, now),
                )
            },
            Err(e) => {
                &&& final(tickets)@ == old(tickets)@
                &&& final(refreshes)@ == old(refreshes)@
                &&& match exchange_refusal(
                    old(tickets)@,
                    code@,
                    match application {
                        Some(app) => Some(*app),
                        None => None,
                    },
                    secret@,
                    now,
                ) {
                    Some(refusal) => e == refusal,
                    None => e == Error::StorageUnavailable && exists|taken: Seq<char>|
                        old(refreshes)@.contains_key(taken) && taken.len() == 36,
                }
            },
        },
{
    match authenticate(application, secret) {
        Err(e) => {
            return Err(e);
        },
        Ok(()) => {},
    }
    let app = match application {
        Some(app) => app,
        None => {
            return Err(Error::ApplicationMismatch);
        },
    };
    let claims = match examine(tickets.peek(code), &app.id, now) {
        Ok(claims) => claims,
        Err(e) => {
            return Err(e);
        },
    };
    let access_token = match sign(&claims, key) {
        Ok(token) => token,
        Err(e) => {
            return Err(e);
        },
    };
    let refresh_token = mint_id();
    if refreshes.peek(&refresh_token).is_some() {
        return Err(Error::StorageUnavailable);
    }
    match tickets.take(code, &app.id, now) {
        Ok(t) => {
            let record = RefreshRecord::first(
                refresh_token.clone(),
                t.account,
                t.application,
                t.scopes,
                now,
            );
            let outcome = refreshes.open(record);
            assert(outcome == WriteOutcome::Stored);
            Ok(TokenPair { access_token, refresh_token, expires_in: ACCESS_LIFETIME })
        },
        Err(e) => Err(e),
    }
}

/// Uses a refresh token: revokes its record and opens the successor in one
/// step, and signs an access token with the same scopes. A token that is
/// unknown, revoked or expired is refused. Where the refresh fails, the
/// store is as before. A usable token fails only where the fresh identifier
/// of the successor, which has 36 characters, is taken; that counts as the
/// store being unavailable.
pub fn refresh(refreshes: &mut RefreshStore, id: &String, key: &[u8], now: u64) -> (r: Result<
    TokenPair,
    Error,
>)
    requires
        now <= MAX_CLOCK,
    ensures
        match r {
            Ok(pair) => {
                &&& usable(old(refreshes)@, id@, now)
                &&& rotate_outcome(old(refreshes)@, id@, pair.refresh_token@, now) is Ok
                &&& final(refreshes)@ == rotate_rest(
                    old(refreshes)@,
                    id@,
                    pair.refresh_token@,
                    now,
                )
                &&& pair.access_token@ == signed_token(
                    claim_members(
                        claims_at(
                            old(refreshes)@[id@].account,
                            old(refreshes)@[id@].application,
                            old(refreshes)@[id@].scopes,
                            now,
                        ),
                    ),
                    key@,
                )
                &&& pair.expires_in == ACCESS_LIFETIME
            },
            Err(e) => {
                &&& final(refreshes)@ == old(refreshes)@
                &&& if !usable(old(refreshes)@, id@, now) {
                    e == Error::RefreshRevoked
                } else {
                    e == Error::StorageUnavailable && exists|taken: Seq<char>|
                        old(refreshes)@.contains_key(taken) && taken.len() == 36
                }
            },
        },
{
    if !refreshes.is_usable(id, now) {
        return Err(Error::RefreshRevoked);
    }
    let claims = match refreshes.peek(id) {
        Some(record) => Claims::issue(
            record.account.clone(),
            record.application.clone(),
            record.scopes.duplicate(),
            now,
        ),
        None => {
            return Err(Error::RefreshRevoked);
        },
    };
    let access_token = match sign(&claims, key) {
        Ok(token) => token,
        Err(e) => {
            return Err(e);
        },
    };
    let refresh_token = mint_id();
    match refreshes.rotate(id, refresh_token.clone(), now) {
        Ok(_) => Ok(TokenPair { access_token, refresh_token, expires_in: ACCESS_LIFETIME }),
        Err(e) => Err(e),
    }
}

} // verus!
