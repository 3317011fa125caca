//! Fixed-capacity rolling history: per device, one drop-oldest ring per
//! headline metric, capped at `MAX_HISTORY` samples.

use vstd::prelude::*;
use std::collections::VecDeque;
use crate::snapshot::GpuSnapshot;

verus! {

/// Maximum number of history samples kept per metric (about one minute
/// of history at a 500 ms poll interval).
pub const MAX_HISTORY: usize = 120;

/// What one push does to a ring's sample sequence: append the new
/// sample, dropping the oldest one once the ring is full.
pub open spec fn ring_push(s: Seq<u64>, v: u64) -> Seq<u64> {
    if s.len() < MAX_HISTORY {
        s.push(v)
    } else {
        s.drop_first().push(v)
    }
}

/// The ring after pushing every sample of `vals` onto `s`, oldest first.
pub open spec fn ring_push_all(s: Seq<u64>, vals: Seq<u64>) -> Seq<u64>
    decreases vals.len(),
{
    if vals.len() == 0 {
        s
    } else {
        ring_push_all(ring_push(s, vals[0]), vals.drop_first())
    }
}

/// The at most `MAX_HISTORY` most recent samples of `s`, in order.
pub open spec fn recent(s: Seq<u64>) -> Seq<u64> {
    if s.len() <= MAX_HISTORY {
        s
    } else {
        s.skip(s.len() - MAX_HISTORY)
    }
}

/// One push keeps exactly the most recent samples.
proof fn lemma_ring_push_recent(s: Seq<u64>, v: u64)
    requires
        s.len() <= MAX_HISTORY,
    ensures
        ring_push(s, v) == recent(s.push(v)),
{
    if s.len() < MAX_HISTORY {
        assert(ring_push(s, v) =~= recent(s.push(v)));
    } else {
        assert(ring_push(s, v) =~= recent(s.push(v)));
    }
}

/// Trimming to the recent window before appending more samples never
/// changes the final window.
proof fn lemma_recent_prefix(a: Seq<u64>, rest: Seq<u64>)
    requires
        a.len() <= MAX_HISTORY + 1,
    ensures
        recent(recent(a) + rest) == recent(a + rest),
{
    if a.len() <= MAX_HISTORY {
        assert(recent(a) == a);
    } else {
        assert(recent(recent(a) + rest) =~= recent(a + rest));
    }
}

/// Law: starting from a ring within its bound, any number of pushes
/// leaves exactly the most recent at most `MAX_HISTORY` pushed samples,
/// in chronological order — in particular the ring never grows past its
/// bound.
pub proof fn lemma_ring_push_all_recent(s: Seq<u64>, vals: Seq<u64>)
    requires
        s.len() <= MAX_HISTORY,
    ensures
        ring_push_all(s, vals) == recent(s + vals),
        ring_push_all(s, vals).len() <= MAX_HISTORY,
    decreases vals.len(),
{
    if vals.len() == 0 {
        assert(s + vals =~= s);
    } else {
        let v = vals[0];
        let rest = vals.drop_first();
        let a = s.push(v);
        lemma_ring_push_recent(s, v);
        lemma_ring_push_all_recent(ring_push(s, v), rest);
        lemma_recent_prefix(a, rest);
        assert(a + rest =~= s + vals);
    }
}

/// Per-device rolling history: one ring of at most `MAX_HISTORY` samples
/// for each headline metric, chronological, oldest first.  Utilization
/// is in percent, memory in megabytes, temperature in degrees Celsius
/// and power draw in milliwatts.
#[derive(Clone, Debug, PartialEq)]
pub struct GpuHistory {
    pub gpu_util: VecDeque<u64>,
    pub vram_used: VecDeque<u64>,
    pub temperature: VecDeque<u64>,
    pub power_draw: VecDeque<u64>,
}

impl GpuHistory {
    /// No samples yet in any ring.
    pub open spec fn is_empty(self) -> bool {
        &&& self.gpu_util@ == Seq::<u64>::empty()
        &&& self.vram_used@ == Seq::<u64>::empty()
        &&& self.temperature@ == Seq::<u64>::empty()
        &&& self.power_draw@ == Seq::<u64>::empty()
    }

    /// Every ring holds at most `MAX_HISTORY` samples.
    pub open spec fn wf(self) -> bool {
        &&& self.gpu_util@.len() <= MAX_HISTORY
        &&& self.vram_used@.len() <= MAX_HISTORY
        &&& self.temperature@.len() <= MAX_HISTORY
        &&& self.power_draw@.len() <= MAX_HISTORY
    }

    /// Four empty rings.
    pub fn new() -> (h: GpuHistory)
        ensures
            h.wf(),
            h.gpu_util@ == Seq::<u64>::empty(),
            h.vram_used@ == Seq::<u64>::empty(),
            h.temperature@ == Seq::<u64>::empty(),
            h.power_draw@ == Seq::<u64>::empty(),
    {
        GpuHistory {
            gpu_util: VecDeque::with_capacity(MAX_HISTORY),
            vram_used: VecDeque::with_capacity(MAX_HISTORY),
            temperature: VecDeque::with_capacity(MAX_HISTORY),
            power_draw: VecDeque::with_capacity(MAX_HISTORY),
        }
    }

    /// Appends one sample of each metric of `snapshot`, each ring
    /// independently dropping its oldest sample on overflow.
    pub fn push(&mut self, snapshot: &GpuSnapshot)
        requires
            old(self).wf(),
        ensures
            final(self).wf(),
            final(self).gpu_util@ == ring_push(old(self).gpu_util@, snapshot.gpu_util as u64),
            final(self).vram_used@ == ring_push(old(self).vram_used@, snapshot.vram_used_mb),
            final(self).temperature@ == ring_push(
                old(self).temperature@,
                snapshot.temperature as u64,
            ),
            final(self).power_draw@ == ring_push(
                old(self).power_draw@,
                snapshot.power_draw_mw as u64,
            ),
    {
        Self::push_val(&mut self.gpu_util, snapshot.gpu_util as u64);
        Self::push_val(&mut self.vram_used, snapshot.vram_used_mb);
        Self::push_val(&mut self.temperature, snapshot.temperature as u64);
        Self::push_val(&mut self.power_draw, snapshot.power_draw_mw as u64);
    }

    /// Drop-oldest-then-append on one ring.
    fn push_val(buf: &mut VecDeque<u64>, val: u64)
        requires
            old(buf)@.len() <= MAX_HISTORY,
        ensures
            final(buf)@ == ring_push(old(buf)@, val),
            final(buf)@.len() <= MAX_HISTORY,
    {
        if buf.len() >= MAX_HISTORY {
            let _oldest = buf.pop_front();
            proof {
                assert(buf@ =~= old(buf)@.drop_first());
            }
        }
        buf.push_back(val);
    }
}

} // verus!
