//! What every request handler shares: the error kinds, their translation to
//! an HTTP status and a JSON body, and the landing page's context.

use vstd::prelude::*;
use vstd::string::StringExecFns;
use crate::json::{json_object_text, members, render_object, Field, FieldValue};
use crate::text::{decimal, decimal_text};

verus! {

/// Every way a request can fail.
#[derive(Debug, PartialEq, Eq)]
pub enum Error {
    /// Reading or writing a request failed.
    IO,
    /// The durable store or the fast store is unreachable or timed out.
    StorageUnavailable,
    /// A store answered with something unexpected.
    Internal,
    /// An access token did not verify.
    Jwt,
    /// An address did not parse.
    Parse,
    /// Bytes were not UTF-8.
    Utf8,
    /// Request parameters were missing.
    Params,
    /// The caller's proof of identity was malformed.
    Privilege,
    /// The action is not allowed to the caller.
    Forbidden,
    /// A record with the same unique key exists already.
    Conflict,
    /// No account has the identifier.
    AccountNotFound,
    /// The password is wrong.
    BadCredential,
    /// The account has a second factor and no code was presented.
    SecondFactorRequired,
    /// The second-factor code is wrong.
    BadSecondFactor,
    /// The account is suspended.
    AccountDisabled,
    /// None of the requested scopes can be granted.
    InsufficientScope,
    /// The ticket code was never issued, has expired or was consumed already.
    TicketNotFound,
    /// The presenting application is not the one the ticket is bound to.
    ApplicationMismatch,
    /// The refresh token is unknown, expired or was used already.
    RefreshRevoked,
    /// The request budget of the window is spent.
    QuotaExceeded { retry_after: u64 },
    /// A request parameter is malformed.
    ValidationError { field: String },
}

/// The HTTP status of each error kind.
pub open spec fn status_of(e: Error) -> u16 {
    match e {
        Error::IO => 500,
        Error::StorageUnavailable => 500,
        Error::Internal => 500,
        Error::Jwt => 401,
        Error::Parse => 500,
        Error::Utf8 => 500,
        Error::Params => 400,
        Error::Privilege => 401,
        Error::Forbidden => 403,
        Error::Conflict => 409,
        Error::AccountNotFound => 401,
        Error::BadCredential => 401,
        Error::SecondFactorRequired => 401,
        Error::BadSecondFactor => 401,
        Error::AccountDisabled => 403,
        Error::InsufficientScope => 403,
        Error::TicketNotFound => 404,
        Error::ApplicationMismatch => 403,
        Error::RefreshRevoked => 401,
        Error::QuotaExceeded { .. } => 402,
        Error::ValidationError { .. } => 400,
    }
}

/// The machine-readable number of each error kind.
pub open spec fn errno_of(e: Error) -> u64 {
    match e {
        Error::IO => 50000000,
        Error::StorageUnavailable => 50000000,
        Error::Internal => 50000002,
        Error::Jwt => 50000003,
        Error::Parse => 50000004,
        Error::Utf8 => 50000005,
        Error::Params => 50000006,
        Error::Privilege => 50000008,
        Error::Forbidden => 40300001,
        Error::Conflict => 40900001,
        Error::AccountNotFound => 40100001,
        Error::BadCredential => 40100001,
        Error::SecondFactorRequired => 40100002,
        Error::BadSecondFactor => 40100003,
        Error::AccountDisabled => 40300002,
        Error::InsufficientScope => 40300003,
        Error::TicketNotFound => 404000,
        Error::ApplicationMismatch => 40300004,
        Error::RefreshRevoked => 40100004,
        Error::QuotaExceeded { .. } => 402000,
        Error::ValidationError { .. } => 40000000,
    }
}

/// The message shown to the client for each error kind.
pub open spec fn message_of(e: Error) -> Seq<char> {
    match e {
        Error::IO => "internal server io error"@,
        Error::StorageUnavailable => "internal server storage error"@,
        Error::Internal => "internal server error"@,
        Error::Jwt => "internal server error"@,
        Error::Parse => "internal server error"@,
        Error::Utf8 => "internal server error"@,
        Error::Params => "internal server error"@,
        Error::Privilege => "internal server error"@,
        Error::Forbidden => "action is forbidden"@,
        Error::Conflict => "internal server error"@,
        Error::AccountNotFound => "invalid credential"@,
        Error::BadCredential => "invalid credential"@,
        Error::SecondFactorRequired => "second factor required"@,
        Error::BadSecondFactor => "invalid credential"@,
        Error::AccountDisabled => "account is disabled"@,
        Error::InsufficientScope => "insufficient scope"@,
        Error::TicketNotFound => "internal server error"@,
        Error::ApplicationMismatch => "action is forbidden"@,
        Error::RefreshRevoked => "invalid credential"@,
        Error::QuotaExceeded { .. } => "reach quota limit, need payment"@,
        Error::ValidationError { .. } => "invalid paramemter"@,
    }
}

/// The name of each error kind.
pub open spec fn name_of(e: Error) -> Seq<char> {
    match e {
        Error::IO => "IO"@,
        Error::StorageUnavailable => "StorageUnavailable"@,
        Error::Internal => "Internal"@,
        Error::Jwt => "Jwt"@,
        Error::Parse => "Parse"@,
        Error::Utf8 => "Utf8"@,
        Error::Params => "Params"@,
        Error::Privilege => "Privilege"@,
        Error::Forbidden => "Forbidden"@,
        Error::Conflict => "Conflict"@,
        Error::AccountNotFound => "AccountNotFound"@,
        Error::BadCredential => "BadCredential"@,
        Error::SecondFactorRequired => "SecondFactorRequired"@,
        Error::BadSecondFactor => "BadSecondFactor"@,
        Error::AccountDisabled => "AccountDisabled"@,
        Error::InsufficientScope => "InsufficientScope"@,
        Error::TicketNotFound => "TicketNotFound"@,
        Error::ApplicationMismatch => "ApplicationMismatch"@,
        Error::RefreshRevoked => "RefreshRevoked"@,
        Error::QuotaExceeded { .. } => "QuotaExceeded"@,
        Error::ValidationError { .. } => "ValidationError"@,
    }
}

/// The members of the JSON body of each error: `errno` and `errmsg`, both
/// text, then the offending `field` of a validation error, as text, or
/// `retry_after` of a spent quota: the seconds to wait, as a JSON number, so
/// that a client can use it without parsing.
pub open spec fn body_of(e: Error) -> Seq<(Seq<char>, FieldValue)> {
    let base = seq![
        ("errno"@, FieldValue::Text(decimal_text(errno_of(e) as nat))),
        ("errmsg"@, FieldValue::Text(message_of(e))),
    ];
    match e {
        Error::ValidationError { field } => base.push(("field"@, FieldValue::Text(field@))),
        Error::QuotaExceeded { retry_after } => base.push(
            ("retry_after"@, FieldValue::Number(retry_after)),
        ),
        _ => base,
    }
}

/// Whether the error is one of the kinds a client is told apart by number.
pub open spec fn is_client_kind(e: Error) -> bool {
    match e {
        Error::BadCredential
        | Error::BadSecondFactor
        | Error::AccountDisabled
        | Error::InsufficientScope
        | Error::TicketNotFound
        | Error::ApplicationMismatch
        | Error::RefreshRevoked
        | Error::QuotaExceeded { .. }
        | Error::StorageUnavailable
        | Error::ValidationError { .. } => true,
        _ => false,
    }
}

/// What went wrong outside the core, as the service saw it.
#[derive(Debug, PartialEq, Eq)]
pub enum Cause {
    /// Reading or writing a request failed.
    Io,
    /// The pool of the durable store gave no connection.
    Pool,
    /// The fast store failed.
    Redis,
    /// The durable store refused a statement, with the SQLSTATE code where it
    /// gave one.
    Database { sql_state: Option<String> },
    /// No record has the key.
    NotFound,
    /// The request budget is spent.
    QuotaLimit { retry_after: u64 },
    /// A parameter of a record is malformed.
    InvalidParam { field: String },
    /// A record operation failed otherwise.
    Model,
    /// A token did not verify.
    Jwt,
    /// A text was no hexadecimal.
    Hex,
    /// An address did not parse.
    Url,
    /// Bytes were not UTF-8.
    Utf8,
}

/// The SQLSTATE code of a unique violation.
pub open spec fn unique_violation() -> Seq<char> {
    "23505"@
}

/// The error kind that a cause becomes. A unique violation is a conflict,
/// any other failure of a statement an internal error; failures of the pool
/// and of the fast store are one kind; a text that is no hexadecimal is a
/// malformed proof of identity.
pub open spec fn kind_of(cause: Cause) -> Error {
    match cause {
        Cause::Io => Error::IO,
        Cause::Pool => Error::StorageUnavailable,
        Cause::Redis => Error::StorageUnavailable,
        Cause::Database { sql_state } => if sql_state matches Some(code) && code@
            == unique_violation() {
            Error::Conflict
        } else {
            Error::Internal
        },
        Cause::NotFound => Error::TicketNotFound,
        Cause::QuotaLimit { retry_after } => Error::QuotaExceeded { retry_after },
        Cause::InvalidParam { field } => Error::ValidationError { field },
        Cause::Model => Error::Internal,
        Cause::Jwt => Error::Jwt,
        Cause::Hex => Error::Privilege,
        Cause::Url => Error::Parse,
        Cause::Utf8 => Error::Utf8,
    }
}

/// Decides which error kind a cause becomes.
pub fn classify(cause: Cause) -> (e: Error)
    ensures
        e == kind_of(cause),
{
    match cause {
        Cause::Io => Error::IO,
        Cause::Pool => Error::StorageUnavailable,
        Cause::Redis => Error::StorageUnavailable,
        Cause::Database { sql_state } => {
            let wanted = String::from_str("23505");
            let unique = match &sql_state {
                Some(code) => *code == wanted,
                None => false,
            };
            if unique {
                Error::Conflict
            } else {
                Error::Internal
            }
        },
        Cause::NotFound => Error::TicketNotFound,
        Cause::QuotaLimit { retry_after } => Error::QuotaExceeded { retry_after },
        Cause::InvalidParam { field } => Error::ValidationError { field },
        Cause::Model => Error::Internal,
        Cause::Jwt => Error::Jwt,
        Cause::Hex => Error::Privilege,
        Cause::Url => Error::Parse,
        Cause::Utf8 => Error::Utf8,
    }
}

/// A reply to the client: the HTTP status and the JSON body.
#[derive(Debug, PartialEq, Eq)]
pub struct Reply {
    pub status: u16,
    pub body: String,
}

impl Error {
    /// The HTTP status to answer with.
    pub fn status(&self) -> (s: u16)
        ensures
            s == status_of(*self),
            400 <= s < 600,
    {
        match self {
            Error::IO => 500,
            Error::StorageUnavailable => 500,
            Error::Internal => 500,
            Error::Jwt => 401,
            Error::Parse => 500,
            Error::Utf8 => 500,
            Error::Params => 400,
            Error::Privilege => 401,
            Error::Forbidden => 403,
            Error::Conflict => 409,
            Error::AccountNotFound => 401,
            Error::BadCredential => 401,
            Error::SecondFactorRequired => 401,
            Error::BadSecondFactor => 401,
            Error::AccountDisabled => 403,
            Error::InsufficientScope => 403,
            Error::TicketNotFound => 404,
            Error::ApplicationMismatch => 403,
            Error::RefreshRevoked => 401,
            Error::QuotaExceeded { .. } => 402,
            Error::ValidationError { .. } => 400,
        }
    }

    /// The stable number that tells a client which kind of error it met.
    pub fn errno(&self) -> (n: u64)
        ensures
            n == errno_of(*self),
    {
        match self {
            Error::IO => 50000000,
            Error::StorageUnavailable => 50000000,
            Error::Internal => 50000002,
            Error::Jwt => 50000003,
            Error::Parse => 50000004,
            Error::Utf8 => 50000005,
            Error::Params => 50000006,
            Error::Privilege => 50000008,
            Error::Forbidden => 40300001,
            Error::Conflict => 40900001,
            Error::AccountNotFound => 40100001,
            Error::BadCredential => 40100001,
            Error::SecondFactorRequired => 40100002,
            Error::BadSecondFactor => 40100003,
            Error::AccountDisabled => 40300002,
            Error::InsufficientScope => 40300003,
            Error::TicketNotFound => 404000,
            Error::ApplicationMismatch => 40300004,
            Error::RefreshRevoked => 40100004,
            Error::QuotaExceeded { .. } => 402000,
            Error::ValidationError { .. } => 40000000,
        }
    }

    /// The message for the client; it names no store and no secret.
    pub fn errmsg(&self) -> (m: &'static str)
        ensures
            m@ == message_of(*self),
    {
        match self {
            Error::IO => "internal server io error",
            Error::StorageUnavailable => "internal server storage error",
            Error::Internal => "internal server error",
            Error::Jwt => "internal server error",
            Error::Parse => "internal server error",
            Error::Utf8 => "internal server error",
            Error::Params => "internal server error",
            Error::Privilege => "internal server error",
            Error::Forbidden => "action is forbidden",
            Error::Conflict => "internal server error",
            Error::AccountNotFound => "invalid credential",
            Error::BadCredential => "invalid credential",
            Error::SecondFactorRequired => "second factor required",
            Error::BadSecondFactor => "invalid credential",
            Error::AccountDisabled => "account is disabled",
            Error::InsufficientScope => "insufficient scope",
            Error::TicketNotFound => "internal server error",
            Error::ApplicationMismatch => "action is forbidden",
            Error::RefreshRevoked => "invalid credential",
            Error::QuotaExceeded { .. } => "reach quota limit, need payment",
            Error::ValidationError { .. } => "invalid paramemter",
        }
    }

    /// The kind's name, for the server's own records.
    pub fn description(&self) -> (d: String)
        ensures
            d@ == name_of(*self),
    {
        let name = match self {
            Error::IO => "IO",
            Error::StorageUnavailable => "StorageUnavailable",
            Error::Internal => "Internal",
            Error::Jwt => "Jwt",
            Error::Parse => "Parse",
            Error::Utf8 => "Utf8",
            Error::Params => "Params",
            Error::Privilege => "Privilege",
            Error::Forbidden => "Forbidden",
            Error::Conflict => "Conflict",
            Error::AccountNotFound => "AccountNotFound",
            Error::BadCredential => "BadCredential",
            Error::SecondFactorRequired => "SecondFactorRequired",
            Error::BadSecondFactor => "BadSecondFactor",
            Error::AccountDisabled => "AccountDisabled",
            Error::InsufficientScope => "InsufficientScope",
            Error::TicketNotFound => "TicketNotFound",
            Error::ApplicationMismatch => "ApplicationMismatch",
            Error::RefreshRevoked => "RefreshRevoked",
            Error::QuotaExceeded { .. } => "QuotaExceeded",
            Error::ValidationError { .. } => "ValidationError",
        };
        String::from_str(name)
    }

    /// The members of the JSON body.
    pub fn fields(&self) -> (fields: Vec<(String, Field)>)
        ensures
            members(fields@) == body_of(*self),
    {
        let mut fields: Vec<(String, Field)> = Vec::new();
        fields.push((String::from_str("errno"), Field::Text(decimal(self.errno()))));
        fields.push((String::from_str("errmsg"), Field::Text(String::from_str(self.errmsg()))));
        match self {
            Error::ValidationError { field } => {
                fields.push((String::from_str("field"), Field::Text(field.clone())));
            },
            Error::QuotaExceeded { retry_after } => {
                fields.push((String::from_str("retry_after"), Field::Number(*retry_after)));
            },
            _ => {},
        }
        assert(members(fields@) =~= body_of(*self));
        fields
    }

    /// Translates the error into the reply for the client: its status, and
    /// its members as a JSON object. The reply is always written.
    pub fn respond_to(&self) -> (r: Result<Reply, u16>)
        ensures
            r matches Ok(reply) && reply.status == status_of(*self) && reply.body@
                == json_object_text(body_of(*self)),
    {
        let fields = self.fields();
        frame(self.status(), render_object(&fields))
    }
}

/// Puts a written body under its status; without a body the answer is the
/// bare status 500.
pub fn frame(status: u16, body: Option<String>) -> (r: Result<Reply, u16>)
    ensures
        r == match body {
            Some(text) => Ok::<Reply, u16>(Reply { status, body: text }),
            None => Err::<Reply, u16>(500u16),
        },
{
    match body {
        Some(text) => Ok(Reply { status, body: text }),
        None => Err(500),
    }
}

/// Writes the reply to a request that succeeded: the members as a JSON
/// object under the status. The reply is always written.
pub fn reply(status: u16, fields: &Vec<(String, Field)>) -> (r: Result<Reply, u16>)
    ensures
        r matches Ok(reply) && reply.status == status && reply.body@ == json_object_text(
            members(fields@),
        ),
{
    frame(status, render_object(fields))
}

/// Among the kinds that a client is told apart by number, the number decides
/// the kind: two such errors with one number are equal, or differ only in
/// what a spent quota or a validation error carries.
pub proof fn lemma_errno_distinct(a: Error, b: Error)
    requires
        is_client_kind(a),
        is_client_kind(b),
        errno_of(a) == errno_of(b),
    ensures
        a == b || (a is QuotaExceeded && b is QuotaExceeded) || (a is ValidationError
            && b is ValidationError),
{
}

/// A client cannot tell an unknown account from a wrong password: both
/// errors have the same status and the same body.
pub proof fn lemma_unknown_account_is_indistinguishable()
    ensures
        status_of(Error::AccountNotFound) == status_of(Error::BadCredential),
        body_of(Error::AccountNotFound) == body_of(Error::BadCredential),
{
}

/// What the landing page shows.
#[derive(Debug)]
pub struct TemplateContext {
    title: String,
    welcome: String,
}

impl TemplateContext {
    pub closed spec fn spec_title(&self) -> Seq<char> {
        self.title@
    }

    pub closed spec fn spec_welcome(&self) -> Seq<char> {
        self.welcome@
    }

    /// The page title.
    pub fn title(&self) -> (r: &String)
        ensures
            r@ == self.spec_title(),
    {
        &self.title
    }

    /// The greeting under the title.
    pub fn welcome(&self) -> (r: &String)
        ensures
            r@ == self.spec_welcome(),
    {
        &self.welcome
    }
}

/// The context of the landing page.
pub fn index() -> (ctx: TemplateContext)
    ensures
        ctx.spec_title() == "Feblr SSO"@,
        ctx.spec_welcome() == "Welcome to Feblr SSO"@,
{
    TemplateContext {
        title: String::from_str("Feblr SSO"),
        welcome: String::from_str("Welcome to Feblr SSO"),
    }
}

} // verus!
