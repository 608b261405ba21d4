//! In-memory sliding-window rate limiter for login attempts.
//!
//! Five failed attempts from one address within a five-minute window lock
//! that address out until the window drains. A successful browser login
//! clears the address's counter.
//!
//! Times are nanoseconds on a monotonic clock that starts when the limiter is
//! created. The pure transitions (`check_at`, `record_failure_at`,
//! `record_success`) carry exact contracts; `check` and `record_failure` read
//! the clock and then perform the corresponding transition.

use std::collections::HashMap;
use std::collections::VecDeque;
use crate::clock::total_nanos;
use std::time::{Duration, Instant};
use vstd::prelude::*;

verus! {

/// Length of the sliding window: five minutes.
pub const WINDOW_NANOS: u64 = 300_000_000_000;

/// Failures within one window that lock an address out.
pub const MAX_FAILURES: usize = 5;

/// The shortest lockout reported to a caller: one second.
pub const MIN_LOCKOUT_NANOS: u64 = 1_000_000_000;

/// A client address: the 32 bits of an IPv4 address or the 128 bits of an
/// IPv6 address. The two families never share a counter.
#[derive(Clone, Copy, Debug, PartialEq, Eq, Structural)]
pub enum IpKey {
    V4(u32),
    V6(u128),
}

#[verifier::external_type_specification]
#[verifier::external_body]
pub struct ExInstant(Instant);

/// `Instant::now`: the current reading of the monotonic clock.
#[verifier::external_body]
fn clock_origin() -> Instant {
    Instant::now()
}

/// `Instant::elapsed`: the time since `origin` on the monotonic clock.
/// The reading depends on the time of the call, so nothing is stated of it.
#[verifier::external_body]
fn elapsed_since(origin: &Instant) -> Duration {
    origin.elapsed()
}

/// `Instant::duration_since`, which saturates at zero.
pub open spec fn elapsed(now: u64, then: u64) -> int {
    if now >= then {
        now - then
    } else {
        0
    }
}

pub open spec fn expired(now: u64, then: u64) -> bool {
    elapsed(now, then) >= WINDOW_NANOS
}

/// Drops the failures at the front of the queue that left the window.
pub open spec fn drain_seq(q: Seq<u64>, now: u64) -> Seq<u64>
    decreases q.len(),
{
    if q.len() > 0 && expired(now, q[0]) {
        drain_seq(q.drop_first(), now)
    } else {
        q
    }
}

/// The failures recorded for `ip` (none when it has no entry).
pub open spec fn queue_of(m: Map<IpKey, Seq<u64>>, ip: IpKey) -> Seq<u64> {
    if m.contains_key(ip) {
        m[ip]
    } else {
        Seq::empty()
    }
}

/// The lockout left when the oldest failure in the window happened at
/// `oldest`: the rest of its window, and at least one second.
pub open spec fn lockout_nanos(now: u64, oldest: u64) -> u64 {
    let rest = WINDOW_NANOS - elapsed(now, oldest);
    let rest = if rest < 0 {
        0
    } else {
        rest
    };
    if rest < MIN_LOCKOUT_NANOS {
        MIN_LOCKOUT_NANOS
    } else {
        rest as u64
    }
}

/// The table after `check` at time `now`: the address's queue is drained
/// (and the address gets an entry, possibly empty).
pub open spec fn check_state(m: Map<IpKey, Seq<u64>>, ip: IpKey, now: u64) -> Map<
    IpKey,
    Seq<u64>,
> {
    m.insert(ip, drain_seq(queue_of(m, ip), now))
}

/// What `check` answers at time `now`: locked out (with the remaining
/// lockout) when five or more failures are still in the window.
pub open spec fn check_result(m: Map<IpKey, Seq<u64>>, ip: IpKey, now: u64) -> Result<(), u64> {
    let q = drain_seq(queue_of(m, ip), now);
    if q.len() >= MAX_FAILURES {
        Err(lockout_nanos(now, q[0]))
    } else {
        Ok(())
    }
}

/// The table after a failure at time `now`.
pub open spec fn failure_state(m: Map<IpKey, Seq<u64>>, ip: IpKey, now: u64) -> Map<
    IpKey,
    Seq<u64>,
> {
    m.insert(ip, drain_seq(queue_of(m, ip), now).push(now))
}

/// The table after a success: the address's entry is gone.
pub open spec fn success_state(m: Map<IpKey, Seq<u64>>, ip: IpKey) -> Map<IpKey, Seq<u64>> {
    m.remove(ip)
}

/// Failures at the times `ts`, in order.
pub open spec fn failures_state(m: Map<IpKey, Seq<u64>>, ip: IpKey, ts: Seq<u64>) -> Map<
    IpKey,
    Seq<u64>,
>
    decreases ts.len(),
{
    if ts.len() == 0 {
        m
    } else {
        failure_state(failures_state(m, ip, ts.drop_last()), ip, ts.last())
    }
}

pub struct LoginRateLimiter {
    v4: HashMap<u32, VecDeque<u64>>,
    v6: HashMap<u128, VecDeque<u64>>,
    origin: Instant,
}

impl View for LoginRateLimiter {
    type V = Map<IpKey, Seq<u64>>;

    /// The failures recorded per address, oldest first.
    closed spec fn view(&self) -> Map<IpKey, Seq<u64>> {
        Map::new(
            |k: IpKey|
                match k {
                    IpKey::V4(a) => self.v4@.contains_key(a),
                    IpKey::V6(b) => self.v6@.contains_key(b),
                },
            |k: IpKey|
                match k {
                    IpKey::V4(a) => self.v4@[a]@,
                    IpKey::V6(b) => self.v6@[b]@,
                },
        )
    }
}

impl Default for LoginRateLimiter {
    fn default() -> (r: Self)
        ensures
            r@ == Map::<IpKey, Seq<u64>>::empty(),
    {
        Self::new()
    }
}

/// Drops the failures that left the window, oldest first.
fn drain_old(queue: &mut VecDeque<u64>, now: u64)
    ensures
        final(queue)@ == drain_seq(old(queue)@, now),
{
    while queue.len() > 0
        invariant
            drain_seq(queue@, now) == drain_seq(old(queue)@, now),
        ensures
            queue@ == drain_seq(old(queue)@, now),
        decreases queue@.len(),
    {
        let front = queue[0];
        let gone = if now >= front {
            now - front >= WINDOW_NANOS
        } else {
            false
        };
        if gone {
            let ghost before = queue@;
            queue.pop_front();
            assert(queue@ =~= before.drop_first());
        } else {
            break ;
        }
    }
}

impl LoginRateLimiter {
    pub fn new() -> (r: Self)
        ensures
            r@ == Map::<IpKey, Seq<u64>>::empty(),
    {
        let r = LoginRateLimiter { v4: HashMap::new(), v6: HashMap::new(), origin: clock_origin() };
        assert(r@ =~= Map::<IpKey, Seq<u64>>::empty());
        r
    }

    /// Takes the queue of `ip` out of the table (empty when absent).
    fn take_queue(&mut self, ip: IpKey) -> (q: VecDeque<u64>)
        ensures
            q@ == queue_of(old(self)@, ip),
            final(self)@ == old(self)@.remove(ip),
            final(self).origin == old(self).origin,
    {
        let ghost before = self@;
        let r = match ip {
            IpKey::V4(a) => self.v4.remove(&a),
            IpKey::V6(b) => self.v6.remove(&b),
        };
        assert(self@ =~= before.remove(ip));
        match r {
            Some(q) => q,
            None => VecDeque::new(),
        }
    }

    /// Puts the queue of `ip` back into the table.
    fn put_queue(&mut self, ip: IpKey, q: VecDeque<u64>)
        ensures
            final(self)@ == old(self)@.insert(ip, q@),
            final(self).origin == old(self).origin,
    {
        let ghost before = self@;
        match ip {
            IpKey::V4(a) => {
                self.v4.insert(a, q);
            },
            IpKey::V6(b) => {
                self.v6.insert(b, q);
            },
        }
        assert(self@ =~= before.insert(ip, q@));
    }

    /// The current time on the limiter's monotonic clock, in nanoseconds
    /// since the limiter was made.
    pub(crate) fn now(&self) -> u64 {
        let n = total_nanos(&elapsed_since(&self.origin));
        #[verifier::truncate]
        (n as u64)
    }

    /// May `ip` attempt a login at time `now`? `Err` carries the remaining
    /// lockout in nanoseconds.
    pub fn check_at(&mut self, ip: IpKey, now: u64) -> (r: Result<(), u64>)
        ensures
            final(self)@ == check_state(old(self)@, ip, now),
            r == check_result(old(self)@, ip, now),
    {
        let mut q = self.take_queue(ip);
        drain_old(&mut q, now);
        let r = if q.len() >= MAX_FAILURES {
            let oldest = q[0];
            let spent: u64 = if now >= oldest {
                now - oldest
            } else {
                0
            };
            let rest: u64 = if spent >= WINDOW_NANOS {
                0
            } else {
                WINDOW_NANOS - spent
            };
            Err(
                if rest < MIN_LOCKOUT_NANOS {
                    MIN_LOCKOUT_NANOS
                } else {
                    rest
                },
            )
        } else {
            Ok(())
        };
        self.put_queue(ip, q);
        proof {
            assert(self@ =~= check_state(old(self)@, ip, now));
        }
        r
    }

    /// Records a failed attempt by `ip` at time `now`.
    pub fn record_failure_at(&mut self, ip: IpKey, now: u64)
        ensures
            final(self)@ == failure_state(old(self)@, ip, now),
    {
        let mut q = self.take_queue(ip);
        drain_old(&mut q, now);
        q.push_back(now);
        self.put_queue(ip, q);
        proof {
            assert(self@ =~= failure_state(old(self)@, ip, now));
        }
    }

    /// Clears the counter of `ip`.
    pub fn record_success(&mut self, ip: IpKey)
        ensures
            final(self)@ == success_state(old(self)@, ip),
    {
        let _ = self.take_queue(ip);
    }

    /// May `ip` attempt a login now? Reads the clock, then behaves as
    /// `check_at` at that reading.
    pub fn check(&mut self, ip: IpKey) -> (r: Result<(), u64>)
        ensures
            exists|now: u64|
                #![trigger check_state(old(self)@, ip, now)]
                final(self)@ == check_state(old(self)@, ip, now) && r == check_result(
                    old(self)@,
                    ip,
                    now,
                ),
    {
        let now = self.now();
        self.check_at(ip, now)
    }

    /// Records a failed attempt by `ip` now.
    pub fn record_failure(&mut self, ip: IpKey)
        ensures
            exists|now: u64|
                #![trigger failure_state(old(self)@, ip, now)]
                final(self)@ == failure_state(old(self)@, ip, now),
    {
        let now = self.now();
        self.record_failure_at(ip, now);
    }
}

// ---------------------------------------------------------------------------
// Laws
// ---------------------------------------------------------------------------

proof fn lemma_drain_append(a: Seq<u64>, b: Seq<u64>, now: u64)
    requires
        b.len() > 0,
        !expired(now, b[0]),
    ensures
        drain_seq(a + b, now) == drain_seq(a, now) + b,
    decreases a.len(),
{
    if a.len() == 0 {
        assert(a + b =~= b);
        assert(drain_seq(a, now) + b =~= b);
    } else if expired(now, a[0]) {
        assert((a + b).drop_first() =~= a.drop_first() + b);
        lemma_drain_append(a.drop_first(), b, now);
    } else {
    }
}

proof fn lemma_drain_suffix(q: Seq<u64>, now: u64) -> (k: int)
    ensures
        0 <= k <= q.len(),
        drain_seq(q, now) == q.skip(k),
    decreases q.len(),
{
    if q.len() > 0 && expired(now, q[0]) {
        let k0 = lemma_drain_suffix(q.drop_first(), now);
        assert(q.drop_first().skip(k0) =~= q.skip(k0 + 1));
        k0 + 1
    } else {
        assert(q.skip(0) =~= q);
        0
    }
}

proof fn lemma_failures_keep_window(m: Map<IpKey, Seq<u64>>, ip: IpKey, ts: Seq<u64>, k: int) -> (p:
    Seq<u64>)
    requires
        1 <= k <= ts.len(),
        forall|i: int, j: int| 0 <= i <= j < ts.len() ==> ts[i] <= ts[j],
        ts[ts.len() - 1] - ts[0] < WINDOW_NANOS,
    ensures
        queue_of(failures_state(m, ip, ts.take(k)), ip) == p + ts.take(k),
    decreases k,
{
    let prev = failures_state(m, ip, ts.take(k - 1));
    assert(ts.take(k).drop_last() =~= ts.take(k - 1));
    assert(ts.take(k).last() == ts[k - 1]);
    if k == 1 {
        let q = queue_of(prev, ip);
        let p = drain_seq(q, ts[0]);
        assert(p.push(ts[0]) =~= p + ts.take(1));
        p
    } else {
        let p0 = lemma_failures_keep_window(m, ip, ts, k - 1);
        let t = ts[k - 1];
        assert(!expired(t, ts.take(k - 1)[0]));
        lemma_drain_append(p0, ts.take(k - 1), t);
        let p = drain_seq(p0, t);
        assert((p + ts.take(k - 1)).push(t) =~= p + ts.take(k));
        p
    }
}

/// Five failures within one window lock the address out: `check` at any
/// time still inside the window of the first of them answers `Err`, with a
/// lockout of at least one second and at most one window.
pub proof fn law_five_failures_lock_out(
    m: Map<IpKey, Seq<u64>>,
    ip: IpKey,
    ts: Seq<u64>,
    now: u64,
)
    requires
        ts.len() == MAX_FAILURES,
        forall|i: int, j: int| 0 <= i <= j < ts.len() ==> ts[i] <= ts[j],
        ts[ts.len() - 1] <= now,
        now - ts[0] < WINDOW_NANOS,
    ensures
        check_result(failures_state(m, ip, ts), ip, now) is Err,
        MIN_LOCKOUT_NANOS <= check_result(failures_state(m, ip, ts), ip, now)->Err_0
            <= WINDOW_NANOS,
{
    let p = lemma_failures_keep_window(m, ip, ts, ts.len() as int);
    assert(ts.take(ts.len() as int) =~= ts);
    assert(!expired(now, ts[0]));
    lemma_drain_append(p, ts, now);
    let q = drain_seq(p, now) + ts;
    assert(q.len() >= MAX_FAILURES);
}

/// A successful login clears the address: the next check lets it in.
pub proof fn law_success_clears(m: Map<IpKey, Seq<u64>>, ip: IpKey, now: u64)
    ensures
        check_result(success_state(m, ip), ip, now) == Ok::<(), u64>(()),
{
    assert(queue_of(success_state(m, ip), ip) =~= Seq::<u64>::empty());
}

/// Addresses are independent: checks, failures and successes of one address
/// leave every other address's failures, and so its answers, unchanged.
pub proof fn law_addresses_independent(
    m: Map<IpKey, Seq<u64>>,
    a: IpKey,
    b: IpKey,
    t: u64,
    now: u64,
)
    requires
        a != b,
    ensures
        queue_of(check_state(m, a, t), b) == queue_of(m, b),
        queue_of(failure_state(m, a, t), b) == queue_of(m, b),
        queue_of(success_state(m, a), b) == queue_of(m, b),
        check_result(check_state(m, a, t), b, now) == check_result(m, b, now),
        check_result(failure_state(m, a, t), b, now) == check_result(m, b, now),
        check_result(success_state(m, a), b, now) == check_result(m, b, now),
{
}

/// Fewer than five recorded failures never lock an address out.
pub proof fn law_fewer_than_five_pass(m: Map<IpKey, Seq<u64>>, ip: IpKey, now: u64)
    requires
        queue_of(m, ip).len() < MAX_FAILURES,
    ensures
        check_result(m, ip, now) == Ok::<(), u64>(()),
{
    let k = lemma_drain_suffix(queue_of(m, ip), now);
}

/// Failures that all left the window are forgotten: the check lets the
/// address in.
pub proof fn law_old_failures_expire(m: Map<IpKey, Seq<u64>>, ip: IpKey, now: u64)
    requires
        forall|i: int| 0 <= i < queue_of(m, ip).len() ==> expired(now, #[trigger] queue_of(m, ip)[i]),
    ensures
        check_result(m, ip, now) == Ok::<(), u64>(()),
        queue_of(check_state(m, ip, now), ip) == Seq::<u64>::empty(),
{
    let q = queue_of(m, ip);
    let k = lemma_drain_suffix(q, now);
    if k < q.len() {
        assert(q.skip(k)[0] == q[k]);
        assert(expired(now, q[k]));
        lemma_drain_fixed(q, now, k);
    }
    assert(q.skip(k) =~= Seq::<u64>::empty());
}

proof fn lemma_drain_fixed(q: Seq<u64>, now: u64, k: int)
    requires
        0 <= k < q.len(),
        drain_seq(q, now) == q.skip(k),
    ensures
        !expired(now, q[k]),
    decreases q.len(),
{
    if q.len() > 0 && expired(now, q[0]) {
        if k == 0 {
            let k1 = lemma_drain_suffix(q.drop_first(), now);
            assert(q.drop_first().skip(k1).len() == q.len() - 1 - k1);
        } else {
            assert(q.drop_first().skip(k - 1) =~= q.skip(k));
            lemma_drain_fixed(q.drop_first(), now, k - 1);
        }
    } else {
        assert(q.skip(0) =~= q);
        if k > 0 {
            assert(q.skip(k).len() < q.len());
        }
    }
}

/// The limiter's numbers: five failures within five minutes lock an
/// address out, and a lockout is reported as at least one second.
pub proof fn law_limiter_numbers()
    ensures
        MAX_FAILURES == 5,
        WINDOW_NANOS == 5 * 60 * 1_000_000_000,
        MIN_LOCKOUT_NANOS == 1_000_000_000,
{
}

} // verus!
