//! The permission resolver: from the roles an account holds to the scopes
//! it may grant, and from a request to what is granted.

use vstd::prelude::*;
use crate::handlers::Error;
use crate::scope::{common, lemma_common, merged, texts, valid_scopes, within, ScopeSet};

verus! {

/// A role and the scopes it grants.
#[derive(Debug)]
pub struct Role {
    pub name: String,
    pub grants: ScopeSet,
}

/// The scopes of the roles that the account holds: the grants of each held
/// role of the table, in the table's order, each name once.
pub open spec fn permissions(roles: Seq<Role>, held: Seq<Seq<char>>) -> Seq<Seq<char>>
    decreases roles.len(),
{
    if roles.len() == 0 {
        Seq::empty()
    } else {
        let head = permissions(roles.drop_last(), held);
        if held.contains(roles.last().name@) {
            merged(head, roles.last().grants@)
        } else {
            head
        }
    }
}

/// What a request is granted: the requested names that the account's
/// permissions and the application's allowed scopes both hold.
pub open spec fn granted(
    requested: Seq<Seq<char>>,
    permitted: Seq<Seq<char>>,
    allowed: Seq<Seq<char>>,
) -> Seq<Seq<char>> {
    common(common(requested, permitted), allowed)
}

/// A name is among the permissions exactly if a held role of the table
/// grants it.
pub proof fn lemma_permissions(roles: Seq<Role>, held: Seq<Seq<char>>, name: Seq<char>)
    ensures
        permissions(roles, held).contains(name) <==> exists|k: int|
            0 <= k < roles.len() && held.contains((#[trigger] roles[k]).name@)
                && roles[k].grants@.contains(name),
    decreases roles.len(),
{
    if roles.len() > 0 {
        let init = roles.drop_last();
        let last = roles.last();
        let head = permissions(init, held);
        lemma_permissions(init, held, name);
        crate::scope::lemma_dedup(head + last.grants@);
        let all = head + last.grants@;
        assert(all.contains(name) <==> head.contains(name) || last.grants@.contains(name)) by {
            if all.contains(name) {
                let k = choose|k: int| 0 <= k < all.len() && all[k] == name;
                if k < head.len() {
                    assert(head[k] == name);
                } else {
                    assert(last.grants@[k - head.len()] == name);
                }
            }
            if head.contains(name) {
                let k = choose|k: int| 0 <= k < head.len() && head[k] == name;
                assert(all[k] == name);
            }
            if last.grants@.contains(name) {
                let k = choose|k: int| 0 <= k < last.grants@.len() && last.grants@[k] == name;
                assert(all[k + head.len()] == name);
            }
        }
        if permissions(roles, held).contains(name) {
            if head.contains(name) {
                let k = choose|k: int|
                    0 <= k < init.len() && held.contains((#[trigger] init[k]).name@)
                        && init[k].grants@.contains(name);
                assert(roles[k] == init[k]);
            } else {
                assert(roles[roles.len() - 1] == last);
            }
        }
        if exists|k: int|
            0 <= k < roles.len() && held.contains((#[trigger] roles[k]).name@)
                && roles[k].grants@.contains(name) {
            let k = choose|k: int|
                0 <= k < roles.len() && held.contains((#[trigger] roles[k]).name@)
                    && roles[k].grants@.contains(name);
            if k < init.len() {
                assert(init[k] == roles[k]);
                assert(head.contains(name));
            }
        }
    }
}

/// What is granted lies within the request, the permissions and the
/// application's allowed scopes.
pub proof fn lemma_granted_within(
    requested: Seq<Seq<char>>,
    permitted: Seq<Seq<char>>,
    allowed: Seq<Seq<char>>,
)
    ensures
        within(granted(requested, permitted, allowed), requested),
        within(granted(requested, permitted, allowed), permitted),
        within(granted(requested, permitted, allowed), allowed),
        valid_scopes(requested) ==> valid_scopes(granted(requested, permitted, allowed)),
{
    lemma_common(requested, permitted);
    lemma_common(common(requested, permitted), allowed);
}

fn holds_role(held: &Vec<String>, name: &String) -> (r: bool)
    ensures
        r == texts(held@).contains(name@),
{
    let mut i: usize = 0;
    while i < held.len()
        invariant
            i <= held@.len(),
            forall|j: int| 0 <= j < i ==> texts(held@)[j] != name@,
        decreases held@.len() - i,
    {
        if held[i] == *name {
            assert(texts(held@)[i as int] == name@);
            return true;
        }
        i += 1;
    }
    false
}

/// Resolves the roles that an account holds to its flat set of scopes.
pub fn resolve(roles: &Vec<Role>, held: &Vec<String>) -> (r: ScopeSet)
    ensures
        r@ == permissions(roles@, texts(held@)),
        valid_scopes(r@),
{
    let mut out = ScopeSet::new();
    let mut i: usize = 0;
    assert(roles@.take(0) =~= Seq::<Role>::empty());
    assert(valid_scopes(out@));
    while i < roles.len()
        invariant
            i <= roles@.len(),
            out@ == permissions(roles@.take(i as int), texts(held@)),
            valid_scopes(out@),
        decreases roles@.len() - i,
    {
        assert(roles@.take(i + 1).drop_last() =~= roles@.take(i as int));
        assert(roles@.take(i + 1).last() == roles@[i as int]);
        if holds_role(held, &roles[i].name) {
            out = out.union(&roles[i].grants);
        }
        i += 1;
    }
    assert(roles@.take(i as int) =~= roles@);
    out
}

/// Decides what a request is granted. With `require_some`, a request that
/// would be granted nothing is refused.
pub fn grant(
    requested: &ScopeSet,
    permitted: &ScopeSet,
    allowed: &ScopeSet,
    require_some: bool,
) -> (r: Result<ScopeSet, Error>)
    ensures
        match r {
            Ok(set) => set@ == granted(requested@, permitted@, allowed@) && valid_scopes(set@)
                && !(require_some && set@.len() == 0),
            Err(e) => e == Error::InsufficientScope && require_some && granted(
                requested@,
                permitted@,
                allowed@,
            ).len() == 0,
        },
{
    let set = requested.intersect(permitted).intersect(allowed);
    if require_some && set.is_empty() {
        Err(Error::InsufficientScope)
    } else {
        Ok(set)
    }
}

} // verus!
