//! The quota guard: a request budget for each identity and route, counted
//! in fixed windows.

use vstd::prelude::*;
use vstd::string::StringExecFns;
use crate::handlers::Error;
use crate::registry::Registry;
use crate::text::{decimal, decimal_text, lemma_decimal_injective};
use crate::ticket::MAX_CLOCK;
use crate::token::{verified, verify};

verus! {

/// Who is asking: an authenticated account, or a client known only by its
/// fingerprint.
#[derive(Debug, PartialEq, Eq)]
pub enum Identity {
    Account(String),
    Anonymous(String),
}

/// The budget of one route: `limit` requests in each window of `window`
/// seconds.
#[derive(Debug, PartialEq, Eq)]
pub struct RouteLimit {
    route: String,
    limit: u64,
    window: u64,
}

/// One counter of the fast store.
#[derive(Debug, PartialEq, Eq, Clone, Copy)]
pub struct Counter {
    pub count: u64,
    pub expires_at: u64,
}

/// The start of the window that holds `now`.
pub open spec fn window_start(now: u64, window: u64) -> u64 {
    (now - now % window) as u64
}

/// How an identity is written in a counter's key.
pub open spec fn identity_tag(identity: Identity) -> Seq<char> {
    match identity {
        Identity::Account(id) => "user:"@ + id@,
        Identity::Anonymous(fingerprint) => "anon:"@ + fingerprint@,
    }
}

/// The key of the counter of an identity, a route and a window.
pub open spec fn counter_key(identity: Identity, route: Seq<char>, start: u64) -> Seq<char> {
    "quota:"@ + identity_tag(identity) + ":"@ + route + ":"@ + decimal_text(start as nat)
}

/// Whether the store holds a counter under `key` that has not expired.
pub open spec fn counting(counters: Map<Seq<char>, Counter>, key: Seq<char>, now: u64) -> bool {
    counters.contains_key(key) && now < counters[key].expires_at
}

/// The counter under `key` after one more request at `now`: one more than
/// before, or 1 with an expiry of one window where none was counting.
pub open spec fn bumped(
    counters: Map<Seq<char>, Counter>,
    key: Seq<char>,
    now: u64,
    window: u64,
) -> Counter {
    if counting(counters, key, now) {
        Counter {
            count: if counters[key].count < u64::MAX {
                (counters[key].count + 1) as u64
            } else {
                u64::MAX
            },
            expires_at: counters[key].expires_at,
        }
    } else {
        Counter { count: 1, expires_at: (now + window) as u64 }
    }
}

/// What the guard answers to the `count`-th request of a window: how many
/// requests are left, or that the budget is spent and for how long.
pub open spec fn verdict(count: u64, limit: u64, window: u64, now: u64) -> Result<u64, Error> {
    if count > limit {
        Err(Error::QuotaExceeded { retry_after: (window - now % window) as u64 })
    } else {
        Ok((limit - count) as u64)
    }
}

/// Judges the `count`-th request of the window that holds `now`.
pub fn judge(count: u64, rule: &RouteLimit, now: u64) -> (r: Result<u64, Error>)
    ensures
        r == verdict(count, rule.spec_limit(), rule.spec_window(), now),
        r is Err <==> count > rule.spec_limit(),
{
    proof {
        use_type_invariant(rule);
    }
    if count > rule.limit {
        Err(Error::QuotaExceeded { retry_after: rule.window - now % rule.window })
    } else {
        Ok(rule.limit - count)
    }
}

impl Identity {
    /// How the identity is written in a counter's key.
    pub fn tag(&self) -> (r: String)
        ensures
            r@ == identity_tag(*self),
    {
        match self {
            Identity::Account(id) => String::from_str("user:").concat(id.as_str()),
            Identity::Anonymous(fingerprint) => String::from_str("anon:").concat(
                fingerprint.as_str(),
            ),
        }
    }
}

impl RouteLimit {
    #[verifier::type_invariant]
    spec fn well_formed(&self) -> bool {
        0 < self.window <= MAX_CLOCK
    }

    pub closed spec fn spec_route(&self) -> Seq<char> {
        self.route@
    }

    pub closed spec fn spec_limit(&self) -> u64 {
        self.limit
    }

    pub closed spec fn spec_window(&self) -> u64 {
        self.window
    }

    /// A budget of `limit` requests in each window of `window` seconds. A
    /// window of no seconds, or longer than the clock runs, is refused as a
    /// malformed `window`.
    pub fn new(route: String, limit: u64, window: u64) -> (r: Result<RouteLimit, Error>)
        ensures
            match r {
                Ok(rule) => 0 < window <= MAX_CLOCK && rule.spec_route() == route@
                    && rule.spec_limit() == limit && rule.spec_window() == window,
                Err(e) => !(0 < window <= MAX_CLOCK) && (e matches Error::ValidationError { field }
                    && field@ == "window"@),
            },
    {
        if window == 0 || window > MAX_CLOCK {
            Err(Error::ValidationError { field: String::from_str("window") })
        } else {
            Ok(RouteLimit { route, limit, window })
        }
    }

    /// The route the budget is for.
    pub fn route(&self) -> (r: &String)
        ensures
            r@ == self.spec_route(),
    {
        &self.route
    }

    /// How many requests a window lets through.
    pub fn limit(&self) -> (r: u64)
        ensures
            r == self.spec_limit(),
    {
        self.limit
    }

    /// The length of a window, in seconds.
    pub fn window(&self) -> (r: u64)
        ensures
            r == self.spec_window(),
            0 < r <= MAX_CLOCK,
    {
        proof {
            use_type_invariant(self);
        }
        self.window
    }

    /// The key of the counter of `identity` on this route in the window that
    /// holds `now`.
    pub fn key(&self, identity: &Identity, now: u64) -> (r: String)
        ensures
            r@ == counter_key(
                *identity,
                self.spec_route(),
                window_start(now, self.spec_window()),
            ),
    {
        proof {
            use_type_invariant(self);
            vstd::arithmetic::div_mod::lemma_mod_decreases(now as nat, self.window as nat);
        }
        let start: u64 = now - now % self.window;
        let tag = identity.tag();
        let number = decimal(start);
        String::from_str("quota:").concat(tag.as_str()).concat(":").concat(
            self.route.as_str(),
        ).concat(":").concat(number.as_str())
    }
}

/// Finds out who a request comes from: the subject of the access token it
/// carries, where that verifies at `now`; else the client behind the
/// fingerprint.
pub fn identify(token: Option<&str>, fingerprint: &str, key: &[u8], now: u64) -> (who: Identity)
    ensures
        match who {
            Identity::Account(id) => token matches Some(t) && verified(t@, key@, now) matches Ok(
                claims,
            ) && id@ == claims.subject,
            Identity::Anonymous(id) => id@ == fingerprint@ && !(token matches Some(t) && verified(
                t@,
                key@,
                now,
            ) is Ok),
        },
{
    match token {
        Some(t) => match verify(t, key, now) {
            Ok(claims) => Identity::Account(claims.subject),
            Err(_) => Identity::Anonymous(String::from_str(fingerprint)),
        },
        None => Identity::Anonymous(String::from_str(fingerprint)),
    }
}

/// Finds the budget of a route: the first rule that names it.
pub fn find_rule<'a>(rules: &'a Vec<RouteLimit>, route: &str) -> (r: Option<&'a RouteLimit>)
    ensures
        match r {
            Some(rule) => exists|i: int|
                0 <= i < rules@.len() && rules@[i] == *rule && rule.spec_route() == route@
                    && forall|j: int| 0 <= j < i ==> (#[trigger] rules@[j]).spec_route() != route@,
            None => forall|i: int|
                0 <= i < rules@.len() ==> (#[trigger] rules@[i]).spec_route() != route@,
        },
{
    let wanted = String::from_str(route);
    let mut i: usize = 0;
    while i < rules.len()
        invariant
            i <= rules@.len(),
            wanted@ == route@,
            forall|j: int| 0 <= j < i ==> (#[trigger] rules@[j]).spec_route() != route@,
        decreases rules@.len() - i,
    {
        if rules[i].route == wanted {
            return Some(&rules[i]);
        }
        i += 1;
    }
    None
}

/// The counters of the fast store, by key, with its one-step operation,
/// `increment`. A counter whose expiry has passed counts as gone.
pub struct QuotaStore {
    counters: Registry<Counter>,
}

impl View for QuotaStore {
    type V = Map<Seq<char>, Counter>;

    closed spec fn view(&self) -> Map<Seq<char>, Counter> {
        self.counters@
    }
}

impl QuotaStore {
    /// A store without counters.
    pub fn new() -> (r: Self)
        ensures
            r@ == Map::<Seq<char>, Counter>::empty(),
    {
        QuotaStore { counters: Registry::new() }
    }

    /// Counts one more request under `key`: in one step, the counter goes up
    /// by one, or starts at 1 with an expiry of one window where none was
    /// counting. Returns the new count.
    pub fn increment(&mut self, key: String, now: u64, window: u64) -> (count: u64)
        requires
            now <= MAX_CLOCK,
            window <= MAX_CLOCK,
        ensures
            count == bumped(old(self)@, key@, now, window).count,
            count >= 1,
            final(self)@ == old(self)@.insert(key@, bumped(old(self)@, key@, now, window)),
    {
        let next = match self.counters.get(&key) {
            Some(c) => if now < c.expires_at {
                Counter {
                    count: if c.count < u64::MAX {
                        c.count + 1
                    } else {
                        u64::MAX
                    },
                    expires_at: c.expires_at,
                }
            } else {
                Counter { count: 1, expires_at: now + window }
            },
            None => Counter { count: 1, expires_at: now + window },
        };
        self.counters.put(key, next);
        next.count
    }
}

/// The guard itself: counts the request of `identity` on the rule's route
/// in the window that holds `now`, and lets it pass while the window's budget
/// lasts. Returns how many requests the window has left.
pub fn guard(store: &mut QuotaStore, identity: &Identity, rule: &RouteLimit, now: u64) -> (r: Result<
    u64,
    Error,
>)
    requires
        now <= MAX_CLOCK,
    ensures
        ({
            let key = counter_key(
                *identity,
                rule.spec_route(),
                window_start(now, rule.spec_window()),
            );
            let counter = bumped(old(store)@, key, now, rule.spec_window());
            &&& final(store)@ == old(store)@.insert(key, counter)
            &&& r == verdict(counter.count, rule.spec_limit(), rule.spec_window(), now)
            &&& r is Err <==> counter.count > rule.spec_limit()
        }),
{
    let key = rule.key(identity, now);
    let count = store.increment(key, now, rule.window());
    judge(count, rule, now)
}

/// The counter of a window that has counted `n` requests, all within the
/// window: it holds `n` and does not expire before the window ends.
pub open spec fn counted(counters: Map<Seq<char>, Counter>, key: Seq<char>, n: u64, end: int) -> bool {
    counters.contains_key(key) && counters[key].count == n && counters[key].expires_at >= end
}

/// Within one window each request counts one more than the one before: after
/// `n` requests the next is the `n + 1`-th, so with a limit of `n` it is
/// refused, and with a higher limit let through.
pub proof fn lemma_next_in_window(
    counters: Map<Seq<char>, Counter>,
    key: Seq<char>,
    n: u64,
    limit: u64,
    window: u64,
    now: u64,
)
    requires
        0 < window <= MAX_CLOCK,
        now <= MAX_CLOCK,
        n < u64::MAX,
        counted(counters, key, n, window_start(now, window) + window),
    ensures
        bumped(counters, key, now, window).count == n + 1,
        counted(
            counters.insert(key, bumped(counters, key, now, window)),
            key,
            (n + 1) as u64,
            window_start(now, window) + window,
        ),
        n >= limit ==> verdict(bumped(counters, key, now, window).count, limit, window, now) is Err,
        n < limit ==> verdict(bumped(counters, key, now, window).count, limit, window, now) is Ok,
{
    assert(now % window < window);
    vstd::arithmetic::div_mod::lemma_mod_decreases(now as nat, window as nat);
}

/// The first request of a window is counted as 1, whatever the store holds
/// under other keys, and passes where the limit is not 0.
pub proof fn lemma_first_in_window(
    counters: Map<Seq<char>, Counter>,
    key: Seq<char>,
    limit: u64,
    window: u64,
    now: u64,
)
    requires
        0 < window <= MAX_CLOCK,
        now <= MAX_CLOCK,
        !counting(counters, key, now),
    ensures
        bumped(counters, key, now, window).count == 1,
        counted(
            counters.insert(key, bumped(counters, key, now, window)),
            key,
            1,
            window_start(now, window) + window,
        ),
        limit >= 1 ==> verdict(1, limit, window, now) is Ok,
{
    assert(now % window < window);
    vstd::arithmetic::div_mod::lemma_mod_decreases(now as nat, window as nat);
}

/// The counts that the store answers to requests under one key, made one
/// after the other at the given times.
pub open spec fn counts(
    counters: Map<Seq<char>, Counter>,
    key: Seq<char>,
    window: u64,
    times: Seq<u64>,
) -> Seq<u64>
    decreases times.len(),
{
    if times.len() == 0 {
        Seq::empty()
    } else {
        let counter = bumped(counters, key, times[0], window);
        seq![counter.count] + counts(
            counters.insert(key, counter),
            key,
            window,
            times.drop_first(),
        )
    }
}

proof fn lemma_counts_from(
    counters: Map<Seq<char>, Counter>,
    key: Seq<char>,
    window: u64,
    times: Seq<u64>,
    n: u64,
    start: u64,
)
    requires
        0 < window <= MAX_CLOCK,
        forall|i: int|
            0 <= i < times.len() ==> (#[trigger] times[i]) <= MAX_CLOCK && window_start(
                times[i],
                window,
            ) == start,
        n + times.len() < u64::MAX,
        n == 0 && times.len() > 0 ==> !counting(counters, key, times[0]),
        n > 0 ==> counted(counters, key, n, start + window),
    ensures
        counts(counters, key, window, times).len() == times.len(),
        forall|i: int|
            0 <= i < times.len() ==> #[trigger] counts(counters, key, window, times)[i] == n + i
                + 1,
    decreases times.len(),
{
    if times.len() > 0 {
        let counter = bumped(counters, key, times[0], window);
        let after = counters.insert(key, counter);
        let rest = times.drop_first();
        if n == 0 {
            lemma_first_in_window(counters, key, 0, window, times[0]);
        } else {
            lemma_next_in_window(counters, key, n, 0, window, times[0]);
        }
        assert forall|i: int| 0 <= i < rest.len() implies (#[trigger] rest[i]) <= MAX_CLOCK
            && window_start(rest[i], window) == start by {
            assert(rest[i] == times[i + 1]);
        }
        lemma_counts_from(after, key, window, rest, (n + 1) as u64, start);
        let all = counts(counters, key, window, times);
        let tail = counts(after, key, window, rest);
        assert forall|i: int| 0 <= i < times.len() implies #[trigger] all[i] == n + i + 1 by {
            if i > 0 {
                assert(all[i] == tail[i - 1]);
            }
        }
    }
}

/// The budget of a window: of the requests of one identity on one route
/// within one window, made in any number and at any times of the window,
/// exactly the first `limit` pass. The request after them is refused.
pub proof fn lemma_window_budget(
    counters: Map<Seq<char>, Counter>,
    key: Seq<char>,
    limit: u64,
    window: u64,
    times: Seq<u64>,
)
    requires
        0 < window <= MAX_CLOCK,
        0 < times.len() < u64::MAX,
        forall|i: int|
            0 <= i < times.len() ==> (#[trigger] times[i]) <= MAX_CLOCK && window_start(
                times[i],
                window,
            ) == window_start(times[0], window),
        !counting(counters, key, times[0]),
    ensures
        counts(counters, key, window, times).len() == times.len(),
        forall|i: int|
            0 <= i < times.len() ==> ((#[trigger] verdict(
                counts(counters, key, window, times)[i],
                limit,
                window,
                times[i],
            )) is Ok <==> i < limit),
{
    lemma_counts_from(counters, key, window, times, 0, window_start(times[0], window));
}

/// A request in another window passes, whatever the window before has
/// counted: where the limit is not 0 and the other window has counted
/// nothing yet, a request in it passes right after one in the first window.
pub proof fn lemma_next_window_is_fresh(
    counters: Map<Seq<char>, Counter>,
    identity: Identity,
    route: Seq<char>,
    limit: u64,
    window: u64,
    now: u64,
    later: u64,
)
    requires
        0 < window <= MAX_CLOCK,
        now <= MAX_CLOCK,
        later <= MAX_CLOCK,
        limit >= 1,
        window_start(now, window) != window_start(later, window),
        !counting(counters, counter_key(identity, route, window_start(later, window)), later),
    ensures
        ({
            let first = counter_key(identity, route, window_start(now, window));
            let second = counter_key(identity, route, window_start(later, window));
            let after = counters.insert(first, bumped(counters, first, now, window));
            &&& first != second
            &&& bumped(after, second, later, window).count == 1
            &&& verdict(bumped(after, second, later, window).count, limit, window, later) is Ok
        }),
{
    lemma_windows_have_own_keys(
        identity,
        route,
        window_start(now, window),
        window_start(later, window),
    );
}

/// The counters of two windows of one identity and route have different
/// keys: what one window counted does not burden the next.
pub proof fn lemma_windows_have_own_keys(
    identity: Identity,
    route: Seq<char>,
    first: u64,
    second: u64,
)
    requires
        first != second,
    ensures
        counter_key(identity, route, first) != counter_key(identity, route, second),
{
    let head = "quota:"@ + identity_tag(identity) + ":"@ + route + ":"@;
    let a = decimal_text(first as nat);
    let b = decimal_text(second as nat);
    if head + a == head + b {
        assert((head + a).skip(head.len() as int) =~= a);
        assert((head + b).skip(head.len() as int) =~= b);
        lemma_decimal_injective(first as nat, second as nat);
    }
}

} // verus!
