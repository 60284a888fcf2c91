//! From a sign-in to a ticket: the credential verifier, the permission
//! resolver and the ticket issuer, one after the other.

use vstd::prelude::*;
use vstd::string::StringExecFns;
use crate::credential::{authentication, verify, Account};
use crate::exchange::Application;
use crate::handlers::Error;
use crate::permission::{grant, granted, lemma_granted_within, permissions, resolve, Role};
use crate::scope::{texts, within, ScopeSet};
use crate::ticket::{fresh, is_code, issue, live, Issued, TicketStore, MAX_CLOCK, TICKET_TTL};

verus! {

/// The scopes that a request is offered: the requested names that the
/// account's roles grant and the application is allowed.
pub open spec fn offer(
    application: Application,
    roles: Seq<Role>,
    held: Seq<Seq<char>>,
    requested: Seq<Seq<char>>,
) -> Seq<Seq<char>> {
    granted(requested, permissions(roles, held), application.allowed@)
}

/// The error that the request itself forces on an authorization: the first
/// check of the credentials that fails, or an offer without scopes.
pub open spec fn authorization_refusal(
    account: Option<Account>,
    password: Seq<u8>,
    code: Option<u32>,
    application: Application,
    roles: Seq<Role>,
    held: Seq<Seq<char>>,
    requested: Seq<Seq<char>>,
    now: u64,
) -> Option<Error> {
    match authentication(account, password, code, now) {
        Err(e) => Some(e),
        Ok(_) => if offer(application, roles, held, requested).len() == 0 {
            Some(Error::InsufficientScope)
        } else {
            None
        },
    }
}

/// What a request for a ticket is granted: the account it is for, the
/// application it is bound to, and the scopes.
#[derive(Debug)]
pub struct Grant {
    pub account: String,
    pub application: String,
    pub scopes: ScopeSet,
}

/// Decides a request for a ticket, without issuing one: the credential
/// verifier, then the permission resolver. An application that is not
/// registered is refused as a malformed `application`; then comes the first
/// check of the credentials that fails; then an offer without scopes.
pub fn authorize(
    account: Option<&Account>,
    password: &[u8],
    code: Option<u32>,
    application: Option<&Application>,
    roles: &Vec<Role>,
    held: &Vec<String>,
    requested: &ScopeSet,
    now: u64,
) -> (r: Result<Grant, Error>)
    ensures
        match r {
            Ok(g) => {
                &&& application matches Some(app)
                &&& authentication(
                    match account {
                        Some(a) => Some(*a),
                        None => None,
                    },
                    password@,
                    code,
                    now,
                ) matches Ok(id)
                &&& g.account@ == id
                &&& g.application@ == app.id@
                &&& g.scopes@ == offer(*app, roles@, texts(held@), requested@)
                &&& g.scopes@.len() > 0
                &&& within(g.scopes@, app.allowed@)
                &&& within(g.scopes@, permissions(roles@, texts(held@)))
                &&& within(g.scopes@, requested@)
            },
            Err(e) => match application {
                None => e matches Error::ValidationError { field } && field@ == "application"@,
                Some(app) => authorization_refusal(
                    match account {
                        Some(a) => Some(*a),
                        None => None,
                    },
                    password@,
                    code,
                    *app,
                    roles@,
                    texts(held@),
                    requested@,
                    now,
                ) == Some(e),
            },
        },
{
    let app = match application {
        Some(app) => app,
        None => {
            return Err(Error::ValidationError { field: String::from_str("application") });
        },
    };
    let id = match verify(account, password, code, now) {
        Ok(id) => id,
        Err(e) => {
            return Err(e);
        },
    };
    let permitted = resolve(roles, held);
    let scopes = match grant(requested, &permitted, &app.allowed, true) {
        Ok(scopes) => scopes,
        Err(e) => {
            return Err(e);
        },
    };
    proof {
        lemma_granted_within(requested@, permitted@, app.allowed@);
    }
    Ok(Grant { account: id, application: app.id.clone(), scopes })
}

/// Answers a request for a ticket. `account` and `application` are what
/// the identity store holds under the presented identifiers, `roles` the
/// role table and `held` the names of the roles the account holds, all read
/// for this request. An application that is not registered is refused as a
/// malformed `application`. The ticket is bound to the account, the
/// application and the offered scopes, which lie within the application's
/// allowed scopes and within the account's permissions. Where the request
/// fails, the store is as before.
pub fn create_ticket(
    tickets: &mut TicketStore,
    account: Option<&Account>,
    password: &[u8],
    code: Option<u32>,
    application: Option<&Application>,
    roles: &Vec<Role>,
    held: &Vec<String>,
    requested: &ScopeSet,
    now: u64,
) -> (r: Result<Issued, Error>)
    requires
        now <= MAX_CLOCK,
    ensures
        match r {
            Ok(issued) => {
                &&& application matches Some(app)
                &&& authentication(
                    match account {
                        Some(a) => Some(*a),
                        None => None,
                    },
                    password@,
                    code,
                    now,
                ) matches Ok(id)
                &&& offer(*app, roles@, texts(held@), requested@).len() > 0
                &&& within(offer(*app, roles@, texts(held@), requested@), app.allowed@)
                &&& within(
                    offer(*app, roles@, texts(held@), requested@),
                    permissions(roles@, texts(held@)),
                )
                &&& within(offer(*app, roles@, texts(held@), requested@), requested@)
                &&& is_code(issued.code@)
                &&& issued.expires_at == now + TICKET_TTL
                &&& !live(old(tickets)@, issued.code@, now)
                &&& final(tickets)@ == old(tickets)@.insert(
                    issued.code@,
                    fresh(
                        issued.code@,
                        id,
                        app.id@,
                        offer(*app, roles@, texts(held@), requested@),
                        now,
                    ),
                )
            },
            Err(e) => {
                &&& final(tickets)@ == old(tickets)@
                &&& match application {
                    None => e matches Error::ValidationError { field } && field@
                        == "application"@,
                    Some(app) => match authorization_refusal(
                        match account {
                            Some(a) => Some(*a),
                            None => None,
                        },
                        password@,
                        code,
                        *app,
                        roles@,
                        texts(held@),
                        requested@,
                        now,
                    ) {
                        Some(refusal) => e == refusal,
                        None => e == Error::StorageUnavailable && exists|taken: Seq<char>|
                            live(old(tickets)@, taken, now),
                    },
                }
            },
        },
{
    match authorize(account, password, code, application, roles, held, requested, now) {
        Ok(g) => issue(tickets, &g.account, &g.application, &g.scopes, now),
        Err(e) => Err(e),
    }
}

/// The scopes of an issued ticket lie within the application's allowed
/// scopes and within the account's permissions, whatever was requested.
pub proof fn lemma_offer_within(
    application: Application,
    roles: Seq<Role>,
    held: Seq<Seq<char>>,
    requested: Seq<Seq<char>>,
)
    ensures
        within(offer(application, roles, held, requested), application.allowed@),
        within(offer(application, roles, held, requested), permissions(roles, held)),
        within(offer(application, roles, held, requested), requested),
{
    lemma_granted_within(requested, permissions(roles, held), application.allowed@);
}

} // verus!
