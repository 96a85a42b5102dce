//! History of fused offsets, from which the drift is estimated.
use vstd::prelude::*;

verus! {

/// How many fused offsets are remembered.
pub const RING_CAPACITY: usize = 512;

/// How many fused offsets a drift estimate needs.
pub const MIN_DRIFT_POINTS: usize = 3;

/// The most recent fused offsets with their timestamps, oldest first.
#[derive(Clone, Debug)]
pub struct FusedRing {
    pub points: Vec<(u64, i64)>,
}

/// The last `n` items of `s`, or all of them where there are fewer.
pub open spec fn last_n<A>(s: Seq<A>, n: int) -> Seq<A> {
    if s.len() > n {
        s.skip(s.len() - n)
    } else {
        s
    }
}

impl FusedRing {
    /// An empty history.
    pub fn new() -> (ring: Self)
        ensures
            ring.points@ == Seq::<(u64, i64)>::empty(),
    {
        FusedRing { points: Vec::new() }
    }

    /// Remembers one more offset and forgets the oldest ones beyond the capacity.
    pub fn push(&mut self, ts_ns: u64, offset_ns: i64)
        ensures
            final(self).points@ == last_n(
                old(self).points@.push((ts_ns, offset_ns)),
                RING_CAPACITY as int,
            ),
    {
        let ghost all = old(self).points@.push((ts_ns, offset_ns));
        self.points.push((ts_ns, offset_ns));
        let n: usize = self.points.len();
        if n > RING_CAPACITY {
            let mut recent: Vec<(u64, i64)> = Vec::new();
            let mut i: usize = n - RING_CAPACITY;
            while i < n
                invariant
                    self.points@ == all,
                    n == all.len(),
                    RING_CAPACITY < n,
                    n - RING_CAPACITY <= i <= n,
                    recent@ == all.subrange(n - RING_CAPACITY, i as int),
                decreases n - i,
            {
                recent.push(self.points[i]);
                assert(recent@ =~= all.subrange(n - RING_CAPACITY, i + 1));
                i += 1;
            }
            assert(recent@ =~= all.skip(n - RING_CAPACITY));
            self.points = recent;
        }
    }

    /// Whether there are enough points for a drift estimate.
    pub fn drift_ready(&self) -> (ready: bool)
        ensures
            ready == (self.points@.len() >= MIN_DRIFT_POINTS),
    {
        self.points.len() >= MIN_DRIFT_POINTS
    }
}

impl Default for FusedRing {
    fn default() -> (ring: Self)
        ensures
            ring.points@ == Seq::<(u64, i64)>::empty(),
    {
        FusedRing::new()
    }
}

/// The history after pushing all of `pushed` onto an empty one.
pub open spec fn ring_after(pushed: Seq<(u64, i64)>) -> Seq<(u64, i64)>
    decreases pushed.len(),
{
    if pushed.len() == 0 {
        Seq::empty()
    } else {
        last_n(ring_after(pushed.drop_last()).push(pushed.last()), RING_CAPACITY as int)
    }
}

/// However many offsets were pushed, the history holds exactly the most recent of them, in order
/// and never more than its capacity.
pub proof fn law_ring_holds_the_most_recent(pushed: Seq<(u64, i64)>)
    ensures
        ring_after(pushed) == last_n(pushed, RING_CAPACITY as int),
        ring_after(pushed).len() <= RING_CAPACITY,
    decreases pushed.len(),
{
    if pushed.len() > 0 {
        law_ring_holds_the_most_recent(pushed.drop_last());
        assert(ring_after(pushed) =~= last_n(pushed, RING_CAPACITY as int));
    }
}

/// The history holds as many of the pushed offsets as there were, 512 at most, and counted from the
/// newest they are exactly those pushed last.
pub proof fn law_history_is_counted_from_the_newest(pushed: Seq<(u64, i64)>, back: int)
    requires
        0 <= back < pushed.len(),
        back < 512,
    ensures
        ring_after(pushed).len() == (if pushed.len() <= 512 {
            pushed.len() as int
        } else {
            512
        }),
        ring_after(pushed)[ring_after(pushed).len() - 1 - back] == pushed[pushed.len() - 1 - back],
{
    law_ring_holds_the_most_recent(pushed);
}

} // verus!
