//! The pause that a wallet keeps between two witness requests.
use vstd::prelude::*;
use crate::text;

verus! {

/// `std::time::Instant`: a moment of the monotonic clock.
#[verifier::external_type_specification]
#[verifier::external_body]
pub struct ExInstant(std::time::Instant);

/// `std::time::Instant::now`: this moment. It depends on the clock alone, so nothing is said
/// of it.
#[verifier::external_body]
pub(crate) fn instant_now() -> (r: std::time::Instant) {
    std::time::Instant::now()
}

/// `std::time::Instant::elapsed`: the nanoseconds since a moment. Their number depends on the
/// clock, so nothing is said of it.
#[verifier::external_body]
pub(crate) fn nanos_since(start: &std::time::Instant) -> (r: u64) {
    start.elapsed().as_nanos() as u64
}

/// When each wallet last asked, in nanoseconds since the limiter was made.
pub struct WalletRateLimiter {
    start: std::time::Instant,
    last_request: Vec<(String, u64)>,
    cooldown_ms: u64,
}

/// The time of the first entry for a wallet.
pub open spec fn time_of(v: Seq<(String, u64)>, id: Seq<char>) -> Option<u64>
    decreases v.len(),
{
    if v.len() == 0 {
        None
    } else if v[0].0@ == id {
        Some(v[0].1)
    } else {
        time_of(v.drop_first(), id)
    }
}

/// Whether no wallet has two entries.
pub open spec fn distinct(v: Seq<(String, u64)>) -> bool {
    forall|i: int, j: int| 0 <= i < j < v.len() ==> (#[trigger] v[i]).0@ != (#[trigger] v[j]).0@
}

proof fn lemma_time_at(v: Seq<(String, u64)>, i: int)
    requires
        distinct(v),
        0 <= i < v.len(),
    ensures
        time_of(v, v[i].0@) == Some(v[i].1),
    decreases v.len(),
{
    if i > 0 {
        let t = v.drop_first();
        assert(v[0].0@ != v[i].0@);
        assert forall|a: int, b: int| 0 <= a < b < t.len() implies (#[trigger] t[a]).0@ != (
        #[trigger] t[b]).0@ by {
            assert(t[a] == v[a + 1] && t[b] == v[b + 1]);
        }
        assert(t[i - 1] == v[i]);
        lemma_time_at(t, i - 1);
    }
}

proof fn lemma_time_none(v: Seq<(String, u64)>, id: Seq<char>)
    requires
        forall|i: int| 0 <= i < v.len() ==> (#[trigger] v[i]).0@ != id,
    ensures
        time_of(v, id) is None,
    decreases v.len(),
{
    if v.len() > 0 {
        let t = v.drop_first();
        assert forall|i: int| 0 <= i < t.len() implies (#[trigger] t[i]).0@ != id by {
            assert(t[i] == v[i + 1]);
        }
        lemma_time_none(t, id);
    }
}

/// Whether a wallet that last asked at `last` may ask at `now`.
pub open spec fn may_ask(last: Option<u64>, now: u64, cooldown_ms: u64) -> bool {
    match last {
        None => true,
        Some(t) => !(now < t + cooldown_ms * 1_000_000) || (cooldown_ms == 0),
    }
}

/// What is remembered of a wallet that last asked at `last` when the memory is
/// cleared at `now`: nothing, once twice the pause has passed.
pub open spec fn kept(last: Option<u64>, now: u64, cooldown_ms: u64) -> Option<u64> {
    match last {
        Some(t) => if t > now - 2 * (cooldown_ms * 1_000_000) {
            Some(t)
        } else {
            None
        },
        None => None,
    }
}

impl WalletRateLimiter {
    /// When a wallet last asked.
    pub closed spec fn last(self, id: Seq<char>) -> Option<u64> {
        time_of(self.last_request@, id)
    }

    /// How many wallets are remembered.
    pub closed spec fn known(self) -> nat {
        self.last_request@.len()
    }

    /// The pause, in milliseconds.
    pub closed spec fn pause(self) -> u64 {
        self.cooldown_ms
    }

    /// Whether each wallet is remembered once.
    pub closed spec fn wf(self) -> bool {
        distinct(self.last_request@)
    }

    /// A limiter that knows no wallet.
    pub fn new(cooldown_ms: u64) -> (r: Self)
        ensures
            r.wf(),
            r.pause() == cooldown_ms,
            r.known() == 0,
            forall|id: Seq<char>| #[trigger] r.last(id) is None,
    {
        WalletRateLimiter { start: instant_now(), last_request: Vec::new(), cooldown_ms }
    }

    /// The time now, on the limiter's clock: any number can come back. What is done at a given
    /// time is said by [`WalletRateLimiter::check_and_record_at`] and
    /// [`WalletRateLimiter::evict_stale_at`].
    pub fn now(&self) -> (r: u64) {
        nanos_since(&self.start)
    }

    /// How many wallets are remembered.
    pub fn len(&self) -> (r: usize)
        ensures
            r == self.known(),
    {
        self.last_request.len()
    }

    /// Whether a wallet may ask now. If it may, that is remembered.
    pub fn check_and_record(&mut self, wallet_id: &str) -> (r: bool)
        requires
            old(self).wf(),
        ensures
            final(self).wf(),
            final(self).pause() == old(self).pause(),
            exists|now: u64| r == may_ask(old(self).last(wallet_id@), now, old(self).pause()) && (r
                ==> final(self).last(wallet_id@) == Some(now)),
            !r ==> final(self).last(wallet_id@) == old(self).last(wallet_id@),
            forall|id: Seq<char>|
                id != wallet_id@ ==> #[trigger] final(self).last(id) == old(self).last(id),
    {
        let now: u64 = self.now();
        self.check_and_record_at(wallet_id, now)
    }

    /// Whether a wallet may ask at `now`. If it may, that is remembered.
    pub fn check_and_record_at(&mut self, wallet_id: &str, now: u64) -> (r: bool)
        requires
            old(self).wf(),
        ensures
            final(self).wf(),
            final(self).pause() == old(self).pause(),
            r == may_ask(old(self).last(wallet_id@), now, old(self).pause()),
            final(self).last(wallet_id@) == (if r {
                Some(now)
            } else {
                old(self).last(wallet_id@)
            }),
            forall|id: Seq<char>|
                id != wallet_id@ ==> #[trigger] final(self).last(id) == old(self).last(id),
            final(self).known() == old(self).known() + (if old(self).last(wallet_id@) is None {
                1int
            } else {
                0int
            }),
    {
        let ghost before = self.last_request@;
        let pause: u128 = self.cooldown_ms as u128 * 1_000_000;
        let mut i: usize = 0;
        while i < self.last_request.len()
            invariant
                i <= self.last_request@.len(),
                self.last_request@ == before,
                *self == *old(self),
                distinct(before),
                pause == self.cooldown_ms * 1_000_000,
                forall|k: int| 0 <= k < i ==> (#[trigger] before[k]).0@ != wallet_id@,
            decreases self.last_request@.len() - i,
        {
            let (same, last): (bool, u64) = {
                let e = &self.last_request[i];
                (text::same_text(e.0.as_str(), wallet_id), e.1)
            };
            if same {
                proof {
                    lemma_time_at(before, i as int);
                }
                if (now as u128) < last as u128 + pause && self.cooldown_ms != 0 {
                    return false;
                }
                self.last_request.set(i, (String::from_str(wallet_id), now));
                proof {
                    let after = self.last_request@;
                    assert forall|a: int, b: int| 0 <= a < b < after.len() implies (#[trigger] after[a]).0@
                        != (#[trigger] after[b]).0@ by {
                        assert(before[a].0@ != before[b].0@);
                    }
                    lemma_time_at(after, i as int);
                    assert forall|id: Seq<char>| id != wallet_id@ implies #[trigger] time_of(after, id)
                        == time_of(before, id) by {
                        lemma_same_elsewhere(before, after, i as int, id);
                    }
                }
                return true;
            }
            i = i + 1;
        }
        proof {
            lemma_time_none(before, wallet_id@);
        }
        self.last_request.push((String::from_str(wallet_id), now));
        proof {
            let after = self.last_request@;
            assert forall|a: int, b: int| 0 <= a < b < after.len() implies (#[trigger] after[a]).0@ != (
            #[trigger] after[b]).0@ by {
                if b < before.len() {
                    assert(before[a].0@ != before[b].0@);
                } else {
                    assert(before[a].0@ != wallet_id@);
                }
            }
            lemma_time_at(after, before.len() as int);
            assert forall|id: Seq<char>| id != wallet_id@ implies #[trigger] time_of(after, id)
                == time_of(before, id) by {
                lemma_time_push(before, after.last(), id);
            }
        }
        true
    }

    /// Forgets wallets that last asked longer ago than twice the pause, now.
    pub fn evict_stale(&mut self)
        requires
            old(self).wf(),
        ensures
            final(self).wf(),
            final(self).pause() == old(self).pause(),
            exists|now: u64|
                #![trigger kept(None, now, 0)]
                forall|id: Seq<char>| #[trigger]
                    final(self).last(id) == kept(old(self).last(id), now, old(self).pause()),
    {
        let now: u64 = self.now();
        self.evict_stale_at(now);
        assert(kept(None, now, 0) is None);
    }

    /// Forgets wallets that last asked longer ago than twice the pause, at
    /// `now`.
    pub fn evict_stale_at(&mut self, now: u64)
        requires
            old(self).wf(),
        ensures
            final(self).wf(),
            final(self).pause() == old(self).pause(),
            forall|id: Seq<char>| #[trigger]
                final(self).last(id) == kept(old(self).last(id), now, old(self).pause()),
    {
        let ghost before = self.last_request@;
        let twice: u128 = self.cooldown_ms as u128 * 2_000_000;
        let mut out: Vec<(String, u64)> = Vec::new();
        let mut i: usize = 0;
        let ghost cd = self.cooldown_ms;
        while i < self.last_request.len()
            invariant
                i <= self.last_request@.len(),
                self.last_request@ == before,
                *self == *old(self),
                twice == 2 * (cd * 1_000_000),
                out@ == fresh(before.take(i as int), now, cd),
            decreases self.last_request@.len() - i,
        {
            assert(before.take(i + 1).drop_last() == before.take(i as int));
            let e = &self.last_request[i];
            if e.1 as u128 + twice > now as u128 {
                out.push((e.0.clone(), e.1));
            }
            i = i + 1;
        }
        proof {
            assert(before.take(i as int) == before);
            assert forall|id: Seq<char>| #[trigger] time_of(out@, id) == kept(
                time_of(before, id),
                now,
                cd,
            ) by {
                lemma_fresh(before, now, cd, id);
            }
            lemma_fresh(before, now, cd, Seq::empty());
        }
        self.last_request = out;
    }
}

proof fn lemma_same_elsewhere(
    a: Seq<(String, u64)>,
    b: Seq<(String, u64)>,
    i: int,
    id: Seq<char>,
)
    requires
        a.len() == b.len(),
        0 <= i < a.len(),
        a[i].0@ == b[i].0@,
        a[i].0@ != id,
        forall|k: int| 0 <= k < a.len() && k != i ==> a[k] == b[k],
    ensures
        time_of(a, id) == time_of(b, id),
    decreases a.len(),
{
    if i == 0 {
        assert(a.drop_first() == b.drop_first());
    } else {
        assert(a[0] == b[0]);
        assert(a.drop_first()[i - 1] == a[i] && b.drop_first()[i - 1] == b[i]);
        assert forall|k: int| 0 <= k < a.drop_first().len() && k != i - 1 implies a.drop_first()[k]
            == b.drop_first()[k] by {
            assert(a[k + 1] == b[k + 1]);
        }
        lemma_same_elsewhere(a.drop_first(), b.drop_first(), i - 1, id);
    }
}

proof fn lemma_time_push(v: Seq<(String, u64)>, e: (String, u64), id: Seq<char>)
    ensures
        time_of(v.push(e), id) == (if time_of(v, id) is Some {
            time_of(v, id)
        } else if e.0@ == id {
            Some(e.1)
        } else {
            None
        }),
    decreases v.len(),
{
    reveal_with_fuel(time_of, 2);
    if v.len() > 0 {
        assert(v.push(e).drop_first() == v.drop_first().push(e));
        lemma_time_push(v.drop_first(), e, id);
    } else {
        assert(v.push(e).drop_first().len() == 0);
    }
}

/// The entries that are kept when the memory is cleared at `now`.
spec fn fresh(v: Seq<(String, u64)>, now: u64, cooldown_ms: u64) -> Seq<(String, u64)>
    decreases v.len(),
{
    if v.len() == 0 {
        v
    } else if v.last().1 > now - 2 * (cooldown_ms * 1_000_000) {
        fresh(v.drop_last(), now, cooldown_ms).push(v.last())
    } else {
        fresh(v.drop_last(), now, cooldown_ms)
    }
}

proof fn lemma_present(v: Seq<(String, u64)>, k: int)
    requires
        0 <= k < v.len(),
    ensures
        time_of(v, v[k].0@) is Some,
{
    if time_of(v, v[k].0@) is None {
        lemma_absent(v, v[k].0@, k);
    }
}

proof fn lemma_absent(v: Seq<(String, u64)>, id: Seq<char>, k: int)
    requires
        time_of(v, id) is None,
        0 <= k < v.len(),
    ensures
        v[k].0@ != id,
    decreases v.len(),
{
    if k > 0 {
        assert(v.drop_first()[k - 1] == v[k]);
        lemma_absent(v.drop_first(), id, k - 1);
    }
}

proof fn lemma_fresh(v: Seq<(String, u64)>, now: u64, cooldown_ms: u64, id: Seq<char>)
    requires
        distinct(v),
    ensures
        distinct(fresh(v, now, cooldown_ms)),
        time_of(fresh(v, now, cooldown_ms), id) == kept(time_of(v, id), now, cooldown_ms),
    decreases v.len(),
{
    if v.len() > 0 {
        let t = v.drop_last();
        let e = v.last();
        let f = fresh(t, now, cooldown_ms);
        assert(t.push(e) == v);
        assert(distinct(t)) by {
            assert forall|a: int, b: int| 0 <= a < b < t.len() implies (#[trigger] t[a]).0@ != (
            #[trigger] t[b]).0@ by {
                assert(t[a] == v[a] && t[b] == v[b]);
            }
        }
        lemma_fresh(t, now, cooldown_ms, id);
        lemma_fresh(t, now, cooldown_ms, e.0@);
        assert forall|k: int| 0 <= k < t.len() implies (#[trigger] t[k]).0@ != e.0@ by {
            assert(v[k].0@ != v[v.len() - 1].0@);
        }
        lemma_time_none(t, e.0@);
        lemma_time_push(t, e, id);
        lemma_time_push(f, e, id);
        let r = f.push(e);
        assert forall|a: int, b: int| 0 <= a < b < r.len() implies (#[trigger] r[a]).0@ != (
        #[trigger] r[b]).0@ by {
            if b < f.len() {
                assert(f[a].0@ != f[b].0@);
            } else {
                lemma_present(f, a);
            }
        }
    }
}

/// A wallet that was let through is turned away until the pause is over, and
/// let through again once it is.
pub proof fn law_pause_between_requests(t: u64, now: u64, cooldown_ms: u64)
    requires
        t <= now,
    ensures
        may_ask(Some(t), now, cooldown_ms) <==> now - t >= cooldown_ms * 1_000_000,
{
}

/// Clearing the memory changes nothing for requests that come at or after that
/// time: whoever is forgotten would have been let through anyway.
pub proof fn law_forgetting_changes_no_answer(
    last: Option<u64>,
    cleared: u64,
    now: u64,
    cooldown_ms: u64,
)
    requires
        cleared <= now,
    ensures
        may_ask(kept(last, cleared, cooldown_ms), now, cooldown_ms) == may_ask(
            last,
            now,
            cooldown_ms,
        ),
{
}


/// A wallet that never asked may ask. A clock that has gone back counts as no time at all.
pub proof fn law_first_request_is_free(t: u64, now: u64, cooldown_ms: u64)
    requires
        now <= t,
    ensures
        may_ask(None, now, cooldown_ms),
        may_ask(Some(t), now, cooldown_ms) <==> cooldown_ms == 0,
{
    assert(t + cooldown_ms * 1_000_000 > now || cooldown_ms == 0);
}

/// A request is remembered for twice the pause, with its time, and then forgotten.
pub proof fn law_remembered_for_twice_the_pause(t: u64, now: u64, cooldown_ms: u64)
    ensures
        now - t < 2 * cooldown_ms * 1_000_000 ==> kept(Some(t), now, cooldown_ms) == Some(t),
        now - t >= 2 * cooldown_ms * 1_000_000 ==> kept(Some(t), now, cooldown_ms) is None,
        kept(None, now, cooldown_ms) is None,
{
}

} // verus!
