//! Refresh tokens: durable records that are rotated on use, so that each
//! identifier can be used once.

use vstd::prelude::*;
use crate::handlers::Error;
use crate::registry::Registry;
use crate::scope::ScopeSet;
use crate::ticket::{WriteOutcome, MAX_CLOCK};

verus! {

/// How long a refresh token can be used, in seconds.
pub const REFRESH_LIFETIME: u64 = 2_592_000;

/// The durable record behind a refresh token.
#[derive(Debug)]
pub struct RefreshRecord {
    pub id: String,
    pub account: String,
    pub application: String,
    pub scopes: ScopeSet,
    pub revoked: bool,
    /// How many rotations lie between the ticket's exchange and this record.
    pub lineage: u64,
    pub expires_at: u64,
}

/// A refresh record as a mathematical value.
pub struct RefreshView {
    pub id: Seq<char>,
    pub account: Seq<char>,
    pub application: Seq<char>,
    pub scopes: Seq<Seq<char>>,
    pub revoked: bool,
    pub lineage: u64,
    pub expires_at: u64,
}

impl View for RefreshRecord {
    type V = RefreshView;

    open spec fn view(&self) -> RefreshView {
        RefreshView {
            id: self.id@,
            account: self.account@,
            application: self.application@,
            scopes: self.scopes@,
            revoked: self.revoked,
            lineage: self.lineage,
            expires_at: self.expires_at,
        }
    }
}

/// The record that an exchange at `now` creates.
pub open spec fn first_record(
    id: Seq<char>,
    account: Seq<char>,
    application: Seq<char>,
    scopes: Seq<Seq<char>>,
    now: u64,
) -> RefreshView {
    RefreshView {
        id,
        account,
        application,
        scopes,
        revoked: false,
        lineage: 0,
        expires_at: (now + REFRESH_LIFETIME) as u64,
    }
}

/// The record that follows `previous` when it is rotated at `now`: the same
/// account, application and scopes, one rotation further.
pub open spec fn successor(previous: RefreshView, id: Seq<char>, now: u64) -> RefreshView {
    RefreshView {
        id,
        account: previous.account,
        application: previous.application,
        scopes: previous.scopes,
        revoked: false,
        lineage: if previous.lineage < u64::MAX {
            (previous.lineage + 1) as u64
        } else {
            u64::MAX
        },
        expires_at: (now + REFRESH_LIFETIME) as u64,
    }
}

/// Whether the record under `id` can be used at `now`: it exists, is not
/// revoked and has not expired.
pub open spec fn usable(records: Map<Seq<char>, RefreshView>, id: Seq<char>, now: u64) -> bool {
    records.contains_key(id) && !records[id].revoked && now < records[id].expires_at
}

/// What opening a record answers: a conflict where the identifier is taken.
pub open spec fn open_outcome(records: Map<Seq<char>, RefreshView>, record: RefreshView) -> WriteOutcome {
    if records.contains_key(record.id) {
        WriteOutcome::Conflict
    } else {
        WriteOutcome::Stored
    }
}

/// The store after opening a record.
pub open spec fn open_rest(records: Map<Seq<char>, RefreshView>, record: RefreshView) -> Map<
    Seq<char>,
    RefreshView,
> {
    if records.contains_key(record.id) {
        records
    } else {
        records.insert(record.id, record)
    }
}

/// What a rotation answers: the successor, where the record under `id` is
/// usable and `new_id` is free.
pub open spec fn rotate_outcome(
    records: Map<Seq<char>, RefreshView>,
    id: Seq<char>,
    new_id: Seq<char>,
    now: u64,
) -> Result<RefreshView, Error> {
    if !usable(records, id, now) {
        Err(Error::RefreshRevoked)
    } else if records.contains_key(new_id) {
        Err(Error::StorageUnavailable)
    } else {
        Ok(successor(records[id], new_id, now))
    }
}

/// The store after a rotation: where it succeeds, the old record is revoked
/// and the successor is there; else nothing has changed.
pub open spec fn rotate_rest(
    records: Map<Seq<char>, RefreshView>,
    id: Seq<char>,
    new_id: Seq<char>,
    now: u64,
) -> Map<Seq<char>, RefreshView> {
    if usable(records, id, now) && !records.contains_key(new_id) {
        records.insert(id, RefreshView { revoked: true, ..records[id] }).insert(
            new_id,
            successor(records[id], new_id, now),
        )
    } else {
        records
    }
}

/// What follows the one-step revocation of a record: where no row was
/// revoked, another use came first and the token is revoked.
pub fn after_rotate(rows: u64) -> (r: Result<(), Error>)
    ensures
        r == if rows == 0 {
            Err::<(), Error>(Error::RefreshRevoked)
        } else {
            Ok::<(), Error>(())
        },
{
    if rows == 0 {
        Err(Error::RefreshRevoked)
    } else {
        Ok(())
    }
}

/// What follows the opening of a record under a fresh identifier: anything
/// but a stored record counts as the store being unavailable.
pub fn after_open(outcome: WriteOutcome) -> (r: Result<(), Error>)
    ensures
        r == if outcome == WriteOutcome::Stored {
            Ok::<(), Error>(())
        } else {
            Err::<(), Error>(Error::StorageUnavailable)
        },
{
    match outcome {
        WriteOutcome::Stored => Ok(()),
        WriteOutcome::Conflict => Err(Error::StorageUnavailable),
        WriteOutcome::Unavailable => Err(Error::StorageUnavailable),
    }
}

/// `uuid::Uuid::new_v4`, written by its `Display`: a random identifier in
/// the hyphenated form, which has 36 characters. Only the length is known.
#[verifier::external_body]
fn random_uuid() -> (id: String)
    ensures
        id@.len() == 36,
{
    uuid::Uuid::new_v4().to_string()
}

/// Draws a fresh identifier for a refresh token.
pub fn mint_id() -> (id: String)
    ensures
        id@.len() == 36,
{
    random_uuid()
}

impl RefreshRecord {
    /// The record that an exchange at `now` creates.
    pub fn first(id: String, account: String, application: String, scopes: ScopeSet, now: u64) -> (r:
        RefreshRecord)
        requires
            now <= MAX_CLOCK,
        ensures
            r@ == first_record(id@, account@, application@, scopes@, now),
    {
        RefreshRecord {
            id,
            account,
            application,
            scopes,
            revoked: false,
            lineage: 0,
            expires_at: now + REFRESH_LIFETIME,
        }
    }

    /// The record that follows this one when it is rotated at `now`.
    pub fn next(&self, id: String, now: u64) -> (r: RefreshRecord)
        requires
            now <= MAX_CLOCK,
        ensures
            r@ == successor(self@, id@, now),
    {
        RefreshRecord {
            id,
            account: self.account.clone(),
            application: self.application.clone(),
            scopes: self.scopes.duplicate(),
            revoked: false,
            lineage: if self.lineage < u64::MAX {
                self.lineage + 1
            } else {
                u64::MAX
            },
            expires_at: now + REFRESH_LIFETIME,
        }
    }

    /// A copy of the record.
    pub fn duplicate(&self) -> (r: RefreshRecord)
        ensures
            r@ == self@,
    {
        RefreshRecord {
            id: self.id.clone(),
            account: self.account.clone(),
            application: self.application.clone(),
            scopes: self.scopes.duplicate(),
            revoked: self.revoked,
            lineage: self.lineage,
            expires_at: self.expires_at,
        }
    }
}

/// The refresh records of the durable store, by identifier, with its two
/// one-step operations, `open` and `rotate`.
pub struct RefreshStore {
    records: Registry<RefreshRecord>,
}

impl View for RefreshStore {
    type V = Map<Seq<char>, RefreshView>;

    closed spec fn view(&self) -> Map<Seq<char>, RefreshView> {
        self.records@.map_values(|r: RefreshRecord| r@)
    }
}

impl RefreshStore {
    /// A store without records.
    pub fn new() -> (r: Self)
        ensures
            r@ == Map::<Seq<char>, RefreshView>::empty(),
    {
        let r = RefreshStore { records: Registry::new() };
        assert(r@ =~= Map::<Seq<char>, RefreshView>::empty());
        r
    }

    /// Whether the record under `id` can be used at `now`.
    pub fn is_usable(&self, id: &String, now: u64) -> (r: bool)
        ensures
            r == usable(self@, id@, now),
    {
        match self.records.get(id) {
            Some(record) => !record.revoked && now < record.expires_at,
            None => false,
        }
    }

    /// The record under `id`, usable or not, where the store holds one.
    pub fn peek(&self, id: &String) -> (r: Option<&RefreshRecord>)
        ensures
            match r {
                Some(record) => self@.contains_key(id@) && record@ == self@[id@],
                None => !self@.contains_key(id@),
            },
    {
        self.records.get(id)
    }

    /// Opens the record under its identifier, unless that is taken.
    pub fn open(&mut self, record: RefreshRecord) -> (r: WriteOutcome)
        ensures
            r == open_outcome(old(self)@, record@),
            final(self)@ == open_rest(old(self)@, record@),
    {
        if self.records.contains(&record.id) {
            WriteOutcome::Conflict
        } else {
            let key = record.id.clone();
            self.records.put(key, record);
            assert(self@ =~= old(self)@.insert(record.id@, record@));
            WriteOutcome::Stored
        }
    }

    /// Rotates the record under `id`: in one step, revokes it and opens its
    /// successor under `new_id`. A record that is missing, revoked or
    /// expired is refused, and nothing changes.
    pub fn rotate(&mut self, id: &String, new_id: String, now: u64) -> (r: Result<
        RefreshRecord,
        Error,
    >)
        requires
            now <= MAX_CLOCK,
        ensures
            match r {
                Ok(next) => rotate_outcome(old(self)@, id@, new_id@, now) == Ok::<
                    RefreshView,
                    Error,
                >(next@),
                Err(e) => rotate_outcome(old(self)@, id@, new_id@, now) == Err::<
                    RefreshView,
                    Error,
                >(e),
            },
            final(self)@ == rotate_rest(old(self)@, id@, new_id@, now),
    {
        if !self.is_usable(id, now) {
            return Err(Error::RefreshRevoked);
        }
        if self.records.contains(&new_id) {
            return Err(Error::StorageUnavailable);
        }
        match self.records.remove(id) {
            Some(previous) => {
                let next = previous.next(new_id.clone(), now);
                let answer = next.duplicate();
                let mut previous = previous;
                previous.revoked = true;
                self.records.put(id.clone(), previous);
                self.records.put(new_id, next);
                assert(self@ =~= rotate_rest(old(self)@, id@, new_id@, now));
                Ok(answer)
            },
            None => Err(Error::RefreshRevoked),
        }
    }
}

/// A refresh token can be used once: after a rotation that succeeded, every
/// later rotation of the same identifier is refused as revoked.
pub proof fn lemma_refresh_once(
    records: Map<Seq<char>, RefreshView>,
    id: Seq<char>,
    first_new: Seq<char>,
    first_now: u64,
    second_new: Seq<char>,
    second_now: u64,
)
    requires
        rotate_outcome(records, id, first_new, first_now) is Ok,
    ensures
        rotate_outcome(
            rotate_rest(records, id, first_new, first_now),
            id,
            second_new,
            second_now,
        ) == Err::<RefreshView, Error>(Error::RefreshRevoked),
        rotate_rest(rotate_rest(records, id, first_new, first_now), id, second_new, second_now)
            == rotate_rest(records, id, first_new, first_now),
{
}

/// A revoked record stays revoked, whatever is rotated or opened after it.
pub proof fn lemma_revoked_stays(
    records: Map<Seq<char>, RefreshView>,
    id: Seq<char>,
    other: Seq<char>,
    other_new: Seq<char>,
    now: u64,
    opened: RefreshView,
)
    requires
        records.contains_key(id),
        records[id].revoked,
    ensures
        rotate_rest(records, other, other_new, now).contains_key(id),
        rotate_rest(records, other, other_new, now)[id].revoked,
        open_rest(records, opened).contains_key(id),
        open_rest(records, opened)[id].revoked,
{
}

/// The scopes of a successor are those of the record it follows: rotation
/// never widens a grant.
pub proof fn lemma_rotation_keeps_scopes(previous: RefreshView, id: Seq<char>, now: u64)
    ensures
        successor(previous, id, now).scopes == previous.scopes,
        successor(previous, id, now).account == previous.account,
        successor(previous, id, now).application == previous.application,
{
}

} // verus!
