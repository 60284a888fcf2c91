//! Authorization tickets: single-use codes, short-lived, bound to an
//! account, an application and a scope set; and the store that holds them.

use vstd::prelude::*;
use vstd::string::StringExecFns;
use crate::handlers::Error;
use crate::json::{members, Field, FieldValue};
use crate::registry::Registry;
use crate::scope::ScopeSet;
use crate::text::{hex_char, hex_encode, hex_text, is_hex_char};

verus! {

/// The latest time, in seconds since the epoch, that the core works with.
pub const MAX_CLOCK: u64 = 0x7fff_ffff_ffff_ffff;

/// How long a ticket can be exchanged, in seconds.
pub const TICKET_TTL: u64 = 120;

/// How many random bytes make a code.
pub const CODE_BYTES: usize = 16;

/// How often a ticket is placed under a fresh code before issuing gives up.
pub const MAX_ATTEMPTS: u32 = 8;

/// An authorization ticket.
#[derive(Debug)]
pub struct Ticket {
    pub code: String,
    pub account: String,
    pub application: String,
    pub scopes: ScopeSet,
    pub issued_at: u64,
    pub expires_at: u64,
    pub consumed: bool,
}

/// A ticket as a mathematical value.
pub struct TicketView {
    pub code: Seq<char>,
    pub account: Seq<char>,
    pub application: Seq<char>,
    pub scopes: Seq<Seq<char>>,
    pub issued_at: u64,
    pub expires_at: u64,
    pub consumed: bool,
}

impl View for Ticket {
    type V = TicketView;

    open spec fn view(&self) -> TicketView {
        TicketView {
            code: self.code@,
            account: self.account@,
            application: self.application@,
            scopes: self.scopes@,
            issued_at: self.issued_at,
            expires_at: self.expires_at,
            consumed: self.consumed,
        }
    }
}

/// The ticket issued at `now` under `code`.
pub open spec fn fresh(
    code: Seq<char>,
    account: Seq<char>,
    application: Seq<char>,
    scopes: Seq<Seq<char>>,
    now: u64,
) -> TicketView {
    TicketView {
        code,
        account,
        application,
        scopes,
        issued_at: now,
        expires_at: (now + TICKET_TTL) as u64,
        consumed: false,
    }
}

/// A ticket code: 32 lower-case hexadecimal digits, that is 128 bits.
pub open spec fn is_code(code: Seq<char>) -> bool {
    code.len() == 32 && forall|i: int| 0 <= i < 32 ==> is_hex_char(#[trigger] code[i])
}

/// Whether the store holds a ticket under `code` that can be exchanged at
/// `now`: one that is not marked consumed and has not expired.
pub open spec fn live(tickets: Map<Seq<char>, TicketView>, code: Seq<char>, now: u64) -> bool {
    tickets.contains_key(code) && !tickets[code].consumed && now < tickets[code].expires_at
}

/// What placing a ticket answers: a conflict where a live ticket has the code.
pub open spec fn place_outcome(tickets: Map<Seq<char>, TicketView>, ticket: TicketView) -> WriteOutcome {
    if live(tickets, ticket.code, ticket.issued_at) {
        WriteOutcome::Conflict
    } else {
        WriteOutcome::Stored
    }
}

/// The store after placing a ticket.
pub open spec fn place_rest(tickets: Map<Seq<char>, TicketView>, ticket: TicketView) -> Map<
    Seq<char>,
    TicketView,
> {
    if live(tickets, ticket.code, ticket.issued_at) {
        tickets
    } else {
        tickets.insert(ticket.code, ticket)
    }
}

/// What an exchange attempt gets from the store: the ticket, marked
/// consumed, where a live ticket under the code is bound to the presenting
/// application.
pub open spec fn take_outcome(
    tickets: Map<Seq<char>, TicketView>,
    code: Seq<char>,
    application: Seq<char>,
    now: u64,
) -> Result<TicketView, Error> {
    if !live(tickets, code, now) {
        Err(Error::TicketNotFound)
    } else if tickets[code].application != application {
        Err(Error::ApplicationMismatch)
    } else {
        Ok(TicketView { consumed: true, ..tickets[code] })
    }
}

/// The store after an exchange attempt: without the code, unless the
/// attempt came from another application than the ticket's.
pub open spec fn take_rest(
    tickets: Map<Seq<char>, TicketView>,
    code: Seq<char>,
    application: Seq<char>,
    now: u64,
) -> Map<Seq<char>, TicketView> {
    if live(tickets, code, now) && tickets[code].application != application {
        tickets
    } else {
        tickets.remove(code)
    }
}

/// How a write to the fast store ended.
#[derive(Debug, PartialEq, Eq, Clone, Copy)]
pub enum WriteOutcome {
    /// The record is in the store.
    Stored,
    /// Another live record has the key; nothing was written.
    Conflict,
    /// The store could not be reached.
    Unavailable,
}

/// What the issuer does after a write.
#[derive(Debug, PartialEq, Eq, Clone, Copy)]
pub enum IssueStep {
    /// The ticket is issued.
    Done,
    /// Place the ticket again under a fresh code.
    Retry,
    /// Fail with `StorageUnavailable`.
    GiveUp,
}

/// What follows a write.
pub open spec fn step_after(attempts: u32, outcome: WriteOutcome) -> IssueStep {
    match outcome {
        WriteOutcome::Stored => IssueStep::Done,
        WriteOutcome::Conflict => if attempts < MAX_ATTEMPTS {
            IssueStep::Retry
        } else {
            IssueStep::GiveUp
        },
        WriteOutcome::Unavailable => IssueStep::GiveUp,
    }
}

/// Decides what follows the write that ended the `attempts`-th attempt.
pub fn after_write(attempts: u32, outcome: WriteOutcome) -> (step: IssueStep)
    ensures
        step == step_after(attempts, outcome),
{
    match outcome {
        WriteOutcome::Stored => IssueStep::Done,
        WriteOutcome::Conflict => if attempts < MAX_ATTEMPTS {
            IssueStep::Retry
        } else {
            IssueStep::GiveUp
        },
        WriteOutcome::Unavailable => IssueStep::GiveUp,
    }
}

/// What follows the one-step deletion of a ticket that was read: where
/// nothing was deleted, another exchange came first and the ticket is gone.
pub fn after_consume(deleted: bool) -> (r: Result<(), Error>)
    ensures
        r == if deleted {
            Ok::<(), Error>(())
        } else {
            Err::<(), Error>(Error::TicketNotFound)
        },
{
    if deleted {
        Ok(())
    } else {
        Err(Error::TicketNotFound)
    }
}

/// `rand::fill` on a buffer of `len` bytes: the thread's generator, which is
/// cryptographically secure, fills all of it. Only the length is known.
#[verifier::external_body]
fn random_bytes(len: usize) -> (bytes: Vec<u8>)
    requires
        len <= 0xffff,
    ensures
        bytes@.len() == len,
{
    let mut buffer = vec![0u8; len];
    rand::fill(&mut buffer[..]);
    buffer
}

/// The hexadecimal text of 16 bytes is a ticket code.
pub proof fn lemma_hex_is_code(bytes: Seq<u8>)
    requires
        bytes.len() == 16,
    ensures
        is_code(hex_text(bytes)),
{
    assert forall|i: int| 0 <= i < 32 implies is_hex_char(#[trigger] hex_text(bytes)[i]) by {
        let d = if i % 2 == 0 {
            bytes[i / 2] as int / 16
        } else {
            bytes[i / 2] as int % 16
        };
        assert(hex_text(bytes)[i] == hex_char(d));
    }
}

/// Draws a fresh code: 128 random bits, written in hexadecimal.
pub fn mint_code() -> (code: String)
    ensures
        is_code(code@),
{
    let bytes = random_bytes(CODE_BYTES);
    proof {
        lemma_hex_is_code(bytes@);
    }
    hex_encode(&bytes)
}

impl Ticket {
    /// The ticket issued at `now` under `code`.
    pub fn new(code: String, account: String, application: String, scopes: ScopeSet, now: u64) -> (t:
        Ticket)
        requires
            now <= MAX_CLOCK,
        ensures
            t@ == fresh(code@, account@, application@, scopes@, now),
            t.issued_at < t.expires_at,
    {
        Ticket {
            code,
            account,
            application,
            scopes,
            issued_at: now,
            expires_at: now + TICKET_TTL,
            consumed: false,
        }
    }
}

/// The tickets that wait to be exchanged, by code: what the fast store
/// holds, with its two one-step operations, `place` and `take`. A ticket
/// whose expiry has passed counts as gone.
pub struct TicketStore {
    tickets: Registry<Ticket>,
}

impl View for TicketStore {
    type V = Map<Seq<char>, TicketView>;

    closed spec fn view(&self) -> Map<Seq<char>, TicketView> {
        self.tickets@.map_values(|t: Ticket| t@)
    }
}

impl TicketStore {
    /// A store without tickets.
    pub fn new() -> (r: Self)
        ensures
            r@ == Map::<Seq<char>, TicketView>::empty(),
    {
        let r = TicketStore { tickets: Registry::new() };
        assert(r@ =~= Map::<Seq<char>, TicketView>::empty());
        r
    }

    /// Whether a ticket under `code` can still be exchanged at `now`.
    pub fn is_live(&self, code: &String, now: u64) -> (r: bool)
        ensures
            r == live(self@, code@, now),
    {
        match self.tickets.get(code) {
            Some(t) => !t.consumed && now < t.expires_at,
            None => false,
        }
    }

    /// The ticket under `code`, live or not, where the store holds one.
    pub fn peek(&self, code: &String) -> (r: Option<&Ticket>)
        ensures
            match r {
                Some(t) => self@.contains_key(code@) && t@ == self@[code@],
                None => !self@.contains_key(code@),
            },
    {
        self.tickets.get(code)
    }

    /// Places the ticket under its code, unless a live ticket has that code.
    pub fn place(&mut self, ticket: Ticket) -> (r: WriteOutcome)
        ensures
            r == place_outcome(old(self)@, ticket@),
            final(self)@ == place_rest(old(self)@, ticket@),
    {
        if self.is_live(&ticket.code, ticket.issued_at) {
            WriteOutcome::Conflict
        } else {
            let key = ticket.code.clone();
            self.tickets.put(key, ticket);
            assert(self@ =~= old(self)@.insert(ticket.code@, ticket@));
            WriteOutcome::Stored
        }
    }

    /// One exchange attempt: takes the ticket under `code` out of the store
    /// if it is live and bound to `application`. A ticket that has expired or
    /// is marked consumed is taken out and reported as not found; a ticket of
    /// another application stays.
    pub fn take(&mut self, code: &String, application: &String, now: u64) -> (r: Result<
        Ticket,
        Error,
    >)
        ensures
            match r {
                Ok(t) => take_outcome(old(self)@, code@, application@, now) == Ok::<
                    TicketView,
                    Error,
                >(t@),
                Err(e) => take_outcome(old(self)@, code@, application@, now) == Err::<
                    TicketView,
                    Error,
                >(e),
            },
            final(self)@ == take_rest(old(self)@, code@, application@, now),
    {
        match self.tickets.remove(code) {
            None => {
                assert(self@ =~= old(self)@.remove(code@));
                Err(Error::TicketNotFound)
            },
            Some(t) => {
                assert(self@ =~= old(self)@.remove(code@));
                if t.consumed || now >= t.expires_at {
                    Err(Error::TicketNotFound)
                } else if t.application != *application {
                    let key = code.clone();
                    self.tickets.put(key, t);
                    assert(self@ =~= old(self)@);
                    Err(Error::ApplicationMismatch)
                } else {
                    let mut t = t;
                    t.consumed = true;
                    Ok(t)
                }
            },
        }
    }
}

/// What the client gets for an issued ticket.
#[derive(Debug, PartialEq, Eq)]
pub struct Issued {
    pub code: String,
    pub expires_at: u64,
}

/// The members of the JSON body for an issued ticket.
pub open spec fn issued_members(code: Seq<char>, expires_at: u64) -> Seq<(Seq<char>, FieldValue)> {
    seq![("code"@, FieldValue::Text(code)), ("expires_at"@, FieldValue::Number(expires_at))]
}

impl Issued {
    /// The members of the JSON body: `code` and `expires_at`.
    pub fn to_fields(&self) -> (fields: Vec<(String, Field)>)
        ensures
            members(fields@) == issued_members(self.code@, self.expires_at),
    {
        let mut fields: Vec<(String, Field)> = Vec::new();
        fields.push((String::from_str("code"), Field::Text(self.code.clone())));
        fields.push((String::from_str("expires_at"), Field::Number(self.expires_at)));
        assert(members(fields@) =~= issued_members(self.code@, self.expires_at));
        fields
    }
}

/// Issues a ticket: places it under a fresh code with a lifetime of
/// `TICKET_TTL` seconds, and draws another code where a live ticket has the
/// first. After `MAX_ATTEMPTS` conflicts in a row the store counts as
/// unavailable; a store without live tickets has no conflicts.
pub fn issue(
    store: &mut TicketStore,
    account: &String,
    application: &String,
    scopes: &ScopeSet,
    now: u64,
) -> (r: Result<Issued, Error>)
    requires
        now <= MAX_CLOCK,
    ensures
        match r {
            Ok(issued) => is_code(issued.code@) && issued.expires_at == now + TICKET_TTL && !live(
                old(store)@,
                issued.code@,
                now,
            ) && final(store)@ == old(store)@.insert(
                issued.code@,
                fresh(issued.code@, account@, application@, scopes@, now),
            ),
            Err(e) => e == Error::StorageUnavailable && final(store)@ == old(store)@,
        },
        (forall|code: Seq<char>| !live(old(store)@, code, now)) ==> r is Ok,
{
    let mut attempts: u32 = 0;
    while attempts <= MAX_ATTEMPTS
        invariant
            store@ == old(store)@,
            now <= MAX_CLOCK,
            attempts > 0 ==> exists|code: Seq<char>| live(old(store)@, code, now),
        decreases MAX_ATTEMPTS + 1 - attempts,
    {
        attempts += 1;
        let code = mint_code();
        let ticket = Ticket::new(
            code.clone(),
            account.clone(),
            application.clone(),
            scopes.duplicate(),
            now,
        );
        let outcome = store.place(ticket);
        match after_write(attempts, outcome) {
            IssueStep::Done => {
                return Ok(Issued { code, expires_at: now + TICKET_TTL });
            },
            IssueStep::Retry => {},
            IssueStep::GiveUp => {
                return Err(Error::StorageUnavailable);
            },
        }
    }
    Err(Error::StorageUnavailable)
}

/// The outcomes of exchange attempts for one code, made one after the other:
/// each attempt is an application and a time.
pub open spec fn attempts(
    tickets: Map<Seq<char>, TicketView>,
    code: Seq<char>,
    tries: Seq<(Seq<char>, u64)>,
) -> Seq<Result<TicketView, Error>>
    decreases tries.len(),
{
    if tries.len() == 0 {
        Seq::empty()
    } else {
        seq![take_outcome(tickets, code, tries[0].0, tries[0].1)] + attempts(
            take_rest(tickets, code, tries[0].0, tries[0].1),
            code,
            tries.drop_first(),
        )
    }
}

/// A ticket is consumed at most once: after an attempt that succeeded, every
/// later attempt for the same code fails as not found, whoever makes it and
/// whenever.
pub proof fn lemma_single_use(
    tickets: Map<Seq<char>, TicketView>,
    code: Seq<char>,
    application: Seq<char>,
    now: u64,
    other: Seq<char>,
    later: u64,
)
    requires
        take_outcome(tickets, code, application, now) is Ok,
    ensures
        take_outcome(take_rest(tickets, code, application, now), code, other, later) == Err::<
            TicketView,
            Error,
        >(Error::TicketNotFound),
        !take_rest(tickets, code, application, now).contains_key(code),
{
}

/// Without a ticket under the code, every attempt fails as not found.
pub proof fn lemma_attempts_without_ticket(
    tickets: Map<Seq<char>, TicketView>,
    code: Seq<char>,
    tries: Seq<(Seq<char>, u64)>,
)
    requires
        !tickets.contains_key(code),
    ensures
        attempts(tickets, code, tries).len() == tries.len(),
        forall|i: int|
            0 <= i < tries.len() ==> #[trigger] attempts(tickets, code, tries)[i] == Err::<
                TicketView,
                Error,
            >(Error::TicketNotFound),
    decreases tries.len(),
{
    if tries.len() > 0 {
        let rest = take_rest(tickets, code, tries[0].0, tries[0].1);
        assert(rest =~= tickets);
        lemma_attempts_without_ticket(rest, code, tries.drop_first());
    }
}

/// Among any number of attempts for one code, made in any order, at most
/// one succeeds, and every attempt after it fails as not found.
pub proof fn lemma_at_most_one_exchange(
    tickets: Map<Seq<char>, TicketView>,
    code: Seq<char>,
    tries: Seq<(Seq<char>, u64)>,
)
    ensures
        attempts(tickets, code, tries).len() == tries.len(),
        forall|i: int, j: int|
            0 <= i < j < tries.len() && (#[trigger] attempts(tickets, code, tries)[i]) is Ok
                ==> (#[trigger] attempts(tickets, code, tries)[j]) == Err::<TicketView, Error>(
                Error::TicketNotFound,
            ),
    decreases tries.len(),
{
    if tries.len() > 0 {
        let first = take_outcome(tickets, code, tries[0].0, tries[0].1);
        let rest = take_rest(tickets, code, tries[0].0, tries[0].1);
        let tail = attempts(rest, code, tries.drop_first());
        lemma_at_most_one_exchange(rest, code, tries.drop_first());
        if first is Ok {
            lemma_attempts_without_ticket(rest, code, tries.drop_first());
        }
        let all = attempts(tickets, code, tries);
        assert forall|i: int, j: int|
            0 <= i < j < tries.len() && (#[trigger] all[i]) is Ok implies (#[trigger] all[j])
                == Err::<TicketView, Error>(Error::TicketNotFound) by {
            assert(all[j] == tail[j - 1]);
            if i > 0 {
                assert(all[i] == tail[i - 1]);
            }
        }
    }
}

/// Where every attempt comes from the ticket's application while the ticket
/// is live, exactly one succeeds: the first. All others fail as not found.
pub proof fn lemma_exactly_one_exchange(
    tickets: Map<Seq<char>, TicketView>,
    code: Seq<char>,
    tries: Seq<(Seq<char>, u64)>,
)
    requires
        tries.len() > 0,
        tickets.contains_key(code),
        !tickets[code].consumed,
        forall|i: int|
            0 <= i < tries.len() ==> (#[trigger] tries[i]).0 == tickets[code].application
                && tries[i].1 < tickets[code].expires_at,
    ensures
        attempts(tickets, code, tries).len() == tries.len(),
        attempts(tickets, code, tries)[0] is Ok,
        forall|j: int|
            1 <= j < tries.len() ==> #[trigger] attempts(tickets, code, tries)[j] == Err::<
                TicketView,
                Error,
            >(Error::TicketNotFound),
{
    let rest = take_rest(tickets, code, tries[0].0, tries[0].1);
    let tail = attempts(rest, code, tries.drop_first());
    lemma_attempts_without_ticket(rest, code, tries.drop_first());
    let all = attempts(tickets, code, tries);
    assert forall|j: int| 1 <= j < tries.len() implies #[trigger] all[j] == Err::<
        TicketView,
        Error,
    >(Error::TicketNotFound) by {
        assert(all[j] == tail[j - 1]);
    }
}

} // verus!
