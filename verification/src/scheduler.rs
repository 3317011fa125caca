//! The poll scheduler: owns the per-device snapshot and history pairs,
//! decides from elapsed time and a mutable interval when a poll is due,
//! and replaces stale snapshots in place — keeping a failing device's
//! previous data and surfacing a single advisory error message.

use vstd::prelude::*;
use crate::builder;
use crate::history::{ring_push, GpuHistory};
use crate::monitor::GpuMonitor;
use crate::snapshot::GpuSnapshot;
use crate::text::poll_error_spec;
use crate::text::poll_error_label;

verus! {

/// Milliseconds since the last poll began, seen from `now_ms`; a clock
/// that has not moved past the last poll counts as no time elapsed.
pub open spec fn elapsed_ms(last_ms: u64, now_ms: u64) -> u64 {
    if now_ms >= last_ms {
        (now_ms - last_ms) as u64
    } else {
        0
    }
}

/// Device `j`'s stored snapshot and history stand exactly as they were.
pub open spec fn retained_at(pre: PollScheduler, post: PollScheduler, j: int) -> bool {
    &&& post.spec_snapshots()[j] == pre.spec_snapshots()[j]
    &&& post.spec_histories()[j] == pre.spec_histories()[j]
}

/// Device `j`'s stored pair was refreshed by one successful poll: the
/// snapshot was replaced by one carrying index `j`, with its process
/// table sorted by descending footprint and free of duplicate pids, and
/// each history ring gained exactly that snapshot's sample by one
/// drop-oldest append.
pub open spec fn refreshed_at(pre: PollScheduler, post: PollScheduler, j: int) -> bool {
    let snap = post.spec_snapshots()[j];
    &&& snap.index as int == j
    &&& builder::sorted_desc(snap.processes@)
    &&& builder::unique_pids(snap.processes@)
    &&& post.spec_histories()[j].gpu_util@ == ring_push(
        pre.spec_histories()[j].gpu_util@,
        snap.gpu_util as u64,
    )
    &&& post.spec_histories()[j].vram_used@ == ring_push(
        pre.spec_histories()[j].vram_used@,
        snap.vram_used_mb,
    )
    &&& post.spec_histories()[j].temperature@ == ring_push(
        pre.spec_histories()[j].temperature@,
        snap.temperature as u64,
    )
    &&& post.spec_histories()[j].power_draw@ == ring_push(
        pre.spec_histories()[j].power_draw@,
        snap.power_draw_mw as u64,
    )
}

/// The scheduler: the current snapshot and the rolling history of every
/// device, the time the last polling pass began, the mutable poll
/// interval, and the advisory error of the most recent pass.
pub struct PollScheduler {
    snapshots: Vec<GpuSnapshot>,
    histories: Vec<GpuHistory>,
    last_poll_ms: u64,
    interval_ms: u64,
    error_msg: Option<String>,
}

impl PollScheduler {
    /// One snapshot and one history per device, histories within their
    /// bound.
    pub open spec fn wf(&self) -> bool {
        &&& self.spec_snapshots().len() == self.spec_histories().len()
        &&& forall|i: int|
            0 <= i < self.spec_histories().len() ==> (#[trigger] self.spec_histories()[i]).wf()
    }

    /// The stored snapshots, by device index.
    pub closed spec fn spec_snapshots(&self) -> Seq<GpuSnapshot> {
        self.snapshots@
    }

    /// The stored histories, by device index.
    pub closed spec fn spec_histories(&self) -> Seq<GpuHistory> {
        self.histories@
    }

    /// When the last polling pass began.
    pub closed spec fn spec_last_poll_ms(&self) -> u64 {
        self.last_poll_ms
    }

    /// The configured poll interval.
    pub closed spec fn spec_interval_ms(&self) -> u64 {
        self.interval_ms
    }

    /// The advisory error text of the most recent pass, `None` after a
    /// fully successful pass.
    pub closed spec fn spec_error(&self) -> Option<Seq<char>> {
        match self.error_msg {
            Some(ref msg) => Some(msg@),
            None => None,
        }
    }

    /// Whether enough time has passed since the last pass for a new one.
    pub open spec fn due(&self, now_ms: u64) -> bool {
        elapsed_ms(self.spec_last_poll_ms(), now_ms) >= self.spec_interval_ms()
    }

    /// Whether a pass is due at `now_ms`: the runtime check behind
    /// `tick`.
    pub fn poll_due(&self, now_ms: u64) -> (is_due: bool)
        ensures
            is_due == self.due(now_ms),
    {
        let elapsed = if now_ms >= self.last_poll_ms {
            now_ms - self.last_poll_ms
        } else {
            0
        };
        elapsed >= self.interval_ms
    }

    /// A scheduler for `device_count` devices that has not polled yet:
    /// placeholder snapshots, empty histories, no error, and a last-poll
    /// time of zero.
    pub fn new(device_count: u32, interval_ms: u64) -> (sched: PollScheduler)
        ensures
            sched.wf(),
            sched.spec_snapshots().len() == device_count,
            sched.spec_histories().len() == device_count,
            forall|i: int|
                0 <= i < device_count ==> (#[trigger] sched.spec_snapshots()[i]).is_placeholder(
                    i as u32,
                ),
            forall|i: int|
                0 <= i < device_count ==> (#[trigger] sched.spec_histories()[i]).is_empty(),
            sched.spec_last_poll_ms() == 0,
            sched.spec_interval_ms() == interval_ms,
            sched.spec_error() is None,
    {
        let mut snapshots: Vec<GpuSnapshot> = Vec::new();
        let mut histories: Vec<GpuHistory> = Vec::new();
        let mut i: u32 = 0;
        while i < device_count
            invariant
                i <= device_count,
                snapshots@.len() == i,
                histories@.len() == i,
                forall|k: int|
                    0 <= k < i ==> (#[trigger] snapshots@[k]).is_placeholder(k as u32),
                forall|k: int| 0 <= k < i ==> (#[trigger] histories@[k]).is_empty(),
                forall|k: int| 0 <= k < i ==> (#[trigger] histories@[k]).wf(),
            decreases device_count - i,
        {
            snapshots.push(GpuSnapshot::placeholder(i));
            histories.push(GpuHistory::new());
            i += 1;
        }
        PollScheduler {
            snapshots,
            histories,
            last_poll_ms: 0,
            interval_ms,
            error_msg: None,
        }
    }

    /// How many devices the scheduler tracks.
    pub fn device_count(&self) -> (count: usize)
        ensures
            count == self.spec_snapshots().len(),
    {
        self.snapshots.len()
    }

    /// Read-only view of the latest stored snapshot of one device.
    pub fn latest_snapshot(&self, index: usize) -> (snap: &GpuSnapshot)
        requires
            index < self.spec_snapshots().len(),
        ensures
            *snap == self.spec_snapshots()[index as int],
    {
        &self.snapshots[index]
    }

    /// Read-only view of the rolling history of one device.
    pub fn history(&self, index: usize) -> (hist: &GpuHistory)
        requires
            index < self.spec_histories().len(),
        ensures
            *hist == self.spec_histories()[index as int],
    {
        &self.histories[index]
    }

    /// The advisory error of the most recent pass, if any.
    pub fn current_error(&self) -> (err: &Option<String>)
        ensures
            match *err {
                Some(ref msg) => self.spec_error() == Some(msg@),
                None => self.spec_error() is None,
            },
    {
        &self.error_msg
    }

    /// Changes the poll interval; takes effect at the next elapsed-time
    /// check.
    pub fn set_interval_ms(&mut self, interval_ms: u64)
        ensures
            final(self).spec_interval_ms() == interval_ms,
            final(self).spec_snapshots() == old(self).spec_snapshots(),
            final(self).spec_histories() == old(self).spec_histories(),
            final(self).spec_last_poll_ms() == old(self).spec_last_poll_ms(),
            final(self).spec_error() == old(self).spec_error(),
    {
        self.interval_ms = interval_ms;
    }

    /// The configured poll interval.
    pub fn interval_ms(&self) -> (interval: u64)
        ensures
            interval == self.spec_interval_ms(),
    {
        self.interval_ms
    }

    /// Folds one device's poll outcome into the stored state.  Success
    /// replaces that device's snapshot and appends one sample set to its
    /// history, touching no other device and leaving the error of an
    /// earlier failure in the same pass standing.  Failure leaves every
    /// snapshot and history untouched and overwrites the advisory error
    /// with one naming this device.  An index the scheduler does not
    /// track changes no snapshot or history.
    pub fn apply_device_result(&mut self, index: u32, outcome: Result<GpuSnapshot, String>)
        requires
            old(self).wf(),
        ensures
            final(self).wf(),
            final(self).spec_last_poll_ms() == old(self).spec_last_poll_ms(),
            final(self).spec_interval_ms() == old(self).spec_interval_ms(),
            final(self).spec_snapshots().len() == old(self).spec_snapshots().len(),
            final(self).spec_histories().len() == old(self).spec_histories().len(),
            match outcome {
                Ok(snap) => {
                    &&& final(self).spec_error() == old(self).spec_error()
                    &&& if index < old(self).spec_snapshots().len() {
                        &&& final(self).spec_snapshots() == old(self).spec_snapshots().update(
                            index as int,
                            snap,
                        )
                        &&& forall|j: int|
                            0 <= j < old(self).spec_histories().len() && j != index
                                ==> final(self).spec_histories()[j] == old(
                                self,
                            ).spec_histories()[j]
                        &&& final(self).spec_histories()[index as int].gpu_util@ == ring_push(
                            old(self).spec_histories()[index as int].gpu_util@,
                            snap.gpu_util as u64,
                        )
                        &&& final(self).spec_histories()[index as int].vram_used@ == ring_push(
                            old(self).spec_histories()[index as int].vram_used@,
                            snap.vram_used_mb,
                        )
                        &&& final(self).spec_histories()[index as int].temperature@ == ring_push(
                            old(self).spec_histories()[index as int].temperature@,
                            snap.temperature as u64,
                        )
                        &&& final(self).spec_histories()[index as int].power_draw@ == ring_push(
                            old(self).spec_histories()[index as int].power_draw@,
                            snap.power_draw_mw as u64,
                        )
                    } else {
                        &&& final(self).spec_snapshots() == old(self).spec_snapshots()
                        &&& final(self).spec_histories() == old(self).spec_histories()
                    }
                },
                Err(detail) => {
                    &&& final(self).spec_snapshots() == old(self).spec_snapshots()
                    &&& final(self).spec_histories() == old(self).spec_histories()
                    &&& final(self).spec_error() == Some(
                        poll_error_spec(index as nat, detail@),
                    )
                },
            },
    {
        match outcome {
            Ok(snap) => {
                let idx = index as usize;
                if idx < self.snapshots.len() {
                    self.histories[idx].push(&snap);
                    let slot = &mut self.snapshots[idx];
                    *slot = snap;
                }
            },
            Err(detail) => {
                self.error_msg = Some(poll_error_label(index, detail.as_str()));
            },
        }
    }

    /// One unconditional polling pass: records `now_ms` as the pass
    /// start, clears the advisory error, then snapshots every device the
    /// monitor reports and folds each outcome in.  Every tracked
    /// device's pair is either untouched or refreshed with that device's
    /// own snapshot; devices the monitor does not report stay untouched;
    /// a pass that ends with no error refreshed every reported device —
    /// and one with failures ends with the message of its last failure.
    pub fn poll_pass(&mut self, monitor: &GpuMonitor, now_ms: u64)
        requires
            old(self).wf(),
        ensures
            final(self).wf(),
            final(self).spec_last_poll_ms() == now_ms,
            final(self).spec_interval_ms() == old(self).spec_interval_ms(),
            final(self).spec_snapshots().len() == old(self).spec_snapshots().len(),
            final(self).spec_histories().len() == old(self).spec_histories().len(),
            forall|j: int|
                0 <= j < old(self).spec_snapshots().len() ==> retained_at(
                    *old(self),
                    *final(self),
                    j,
                ) || #[trigger] refreshed_at(*old(self), *final(self), j),
            forall|j: int|
                monitor.spec_device_count() <= j < old(self).spec_snapshots().len()
                    ==> #[trigger] retained_at(*old(self), *final(self), j),
            final(self).spec_error() is None ==> forall|j: int|
                0 <= j < old(self).spec_snapshots().len() && j < monitor.spec_device_count()
                    ==> #[trigger] refreshed_at(*old(self), *final(self), j),
            final(self).spec_error() is None || exists|k: nat, d: Seq<char>|
                k < monitor.spec_device_count() && final(self).spec_error() == Some(
                    #[trigger] poll_error_spec(k, d),
                ),
    {
        self.last_poll_ms = now_ms;
        self.error_msg = None;
        let count = monitor.device_count();
        let ghost len = old(self).spec_snapshots().len() as int;
        let mut i: u32 = 0;
        while i < count
            invariant
                self.wf(),
                i <= count,
                count == monitor.spec_device_count(),
                len == old(self).spec_snapshots().len(),
                self.spec_last_poll_ms() == now_ms,
                self.spec_interval_ms() == old(self).spec_interval_ms(),
                self.spec_snapshots().len() == old(self).spec_snapshots().len(),
                self.spec_histories().len() == old(self).spec_histories().len(),
                forall|j: int|
                    i <= j < len ==> #[trigger] retained_at(*old(self), *self, j),
                forall|j: int|
                    0 <= j < i && j < len ==> retained_at(*old(self), *self, j)
                        || #[trigger] refreshed_at(*old(self), *self, j),
                self.spec_error() is None ==> forall|j: int|
                    0 <= j < i && j < len ==> #[trigger] refreshed_at(*old(self), *self, j),
                self.spec_error() is None || exists|k: nat, d: Seq<char>|
                    k < i && self.spec_error() == Some(#[trigger] poll_error_spec(k, d)),
            decreases count - i,
        {
            let outcome = monitor.snapshot(i);
            let ghost outcome_spec = outcome;
            let ghost pre_step = *self;
            let ghost error_before = self.spec_error();
            self.apply_device_result(i, outcome);
            proof {
                match outcome_spec {
                    Result::Ok(snap) => {
                        if self.spec_error() is Some {
                            let (k, d) = choose|k: nat, d: Seq<char>|
                                k < i && error_before == Some(#[trigger] poll_error_spec(k, d));
                            assert(k < i + 1 && self.spec_error() == Some(poll_error_spec(k, d)));
                        }
                        if (i as int) < len {
                            assert(retained_at(*old(self), pre_step, i as int));
                            assert(self.spec_snapshots()[i as int] == snap);
                            assert(refreshed_at(*old(self), *self, i as int));
                        }
                        assert forall|j: int|
                            0 <= j < len && j != i implies #[trigger] self.spec_snapshots()[j]
                            == pre_step.spec_snapshots()[j] && self.spec_histories()[j]
                            == pre_step.spec_histories()[j] by {}
                        assert forall|j: int|
                            i + 1 <= j < len implies #[trigger] retained_at(
                            *old(self),
                            *self,
                            j,
                        ) by {
                            assert(retained_at(*old(self), pre_step, j));
                        }
                        assert forall|j: int|
                            0 <= j < i + 1 && j < len implies retained_at(*old(self), *self, j)
                            || #[trigger] refreshed_at(*old(self), *self, j) by {
                            if j < i {
                                assert(retained_at(*old(self), pre_step, j)
                                    || refreshed_at(*old(self), pre_step, j));
                            }
                        }
                        if self.spec_error() is None {
                            assert forall|j: int|
                                0 <= j < i + 1 && j < len implies #[trigger] refreshed_at(
                                *old(self),
                                *self,
                                j,
                            ) by {
                                if j < i {
                                    assert(refreshed_at(*old(self), pre_step, j));
                                }
                            }
                        }
                    },
                    Result::Err(detail) => {
                        assert(i < i + 1 && self.spec_error() == Some(
                            poll_error_spec(i as nat, detail@),
                        ));
                        assert forall|j: int|
                            i + 1 <= j < len implies #[trigger] retained_at(
                            *old(self),
                            *self,
                            j,
                        ) by {
                            assert(retained_at(*old(self), pre_step, j));
                        }
                        assert forall|j: int|
                            0 <= j < i + 1 && j < len implies retained_at(*old(self), *self, j)
                            || #[trigger] refreshed_at(*old(self), *self, j) by {
                            if j < i {
                                assert(retained_at(*old(self), pre_step, j)
                                    || refreshed_at(*old(self), pre_step, j));
                            } else {
                                assert(retained_at(*old(self), pre_step, j));
                            }
                        }
                    },
                }
            }
            i += 1;
        }
        proof {
            assert forall|j: int|
                0 <= j < len implies retained_at(*old(self), *self, j) || #[trigger] refreshed_at(
                *old(self),
                *self,
                j,
            ) by {
                if j >= count {
                    assert(retained_at(*old(self), *self, j));
                }
            }
        }
    }

    /// The driving tick: a no-op while the elapsed time since the last
    /// pass is below the interval, one full polling pass otherwise —
    /// with the same per-device guarantees as the pass itself.
    pub fn tick(&mut self, monitor: &GpuMonitor, now_ms: u64)
        requires
            old(self).wf(),
        ensures
            final(self).wf(),
            !old(self).due(now_ms) ==> *final(self) == *old(self),
            final(self).spec_interval_ms() == old(self).spec_interval_ms(),
            final(self).spec_snapshots().len() == old(self).spec_snapshots().len(),
            final(self).spec_histories().len() == old(self).spec_histories().len(),
            old(self).due(now_ms) ==> {
                &&& final(self).spec_last_poll_ms() == now_ms
                &&& forall|j: int|
                    0 <= j < old(self).spec_snapshots().len() ==> retained_at(
                        *old(self),
                        *final(self),
                        j,
                    ) || #[trigger] refreshed_at(*old(self), *final(self), j)
                &&& forall|j: int|
                    monitor.spec_device_count() <= j < old(self).spec_snapshots().len()
                        ==> #[trigger] retained_at(*old(self), *final(self), j)
                &&& (final(self).spec_error() is None ==> forall|j: int|
                    0 <= j < old(self).spec_snapshots().len() && j < monitor.spec_device_count()
                        ==> #[trigger] refreshed_at(*old(self), *final(self), j))
                &&& (final(self).spec_error() is None || exists|k: nat, d: Seq<char>|
                    k < monitor.spec_device_count() && final(self).spec_error() == Some(
                        #[trigger] poll_error_spec(k, d),
                    ))
            },
    {
        let elapsed = if now_ms >= self.last_poll_ms {
            now_ms - self.last_poll_ms
        } else {
            0
        };
        if elapsed < self.interval_ms {
            return ;
        }
        self.poll_pass(monitor, now_ms);
    }
}

} // verus!
