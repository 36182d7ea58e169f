//! Model-driver bookkeeping: per-frame latency statistics and the
//! decisions of the model thread's loop.
//!
//! The neural frame processor itself is an external collaborator: it takes
//! an 80 ms frame and may block for hundreds of milliseconds.  What is
//! verified here is everything the driver decides around it — which events
//! make it forward audio or text, set the shutdown flag or stop — and the
//! statistics it reports at the end: mean and 95th-percentile per-frame
//! latency over the sorted latency record, in microseconds.

use vstd::prelude::*;
use vstd::relations::{sorted_by, total_ordering};
use vstd::seq_lib::lemma_sorted_unique;

verus! {

/// The order the latency record is sorted by.
pub open spec fn u32_le() -> spec_fn(u32, u32) -> bool {
    |a: u32, b: u32| a <= b
}

/// The latency record in ascending order.
pub open spec fn sorted_times(s: Seq<u32>) -> Seq<u32> {
    s.sort_by(u32_le())
}

/// Sum of a latency record.
pub open spec fn seq_sum(s: Seq<u32>) -> int
    decreases s.len(),
{
    if s.len() == 0 {
        0
    } else {
        seq_sum(s.drop_last()) + s.last()
    }
}

/// Index of the 95th percentile in a sorted record of `n` entries:
/// `floor(0.95 * n)`, which for `n >= 1` already lies below `n`.
pub open spec fn p95_index(n: int) -> int {
    95 * n / 100
}

/// Largest number of latency entries the driver records; keeps the sum
/// within a 64-bit accumulator.
pub const MAX_FRAME_RECORDS: usize = 0xFFFF_FFFF;

/// Final statistics of the model thread.
#[derive(Clone, Copy, Debug, PartialEq, Eq, Structural)]
pub struct ModelStats {
    /// Mean per-frame latency, microseconds (0 when no frame was processed).
    pub avg_time_us: u64,
    /// 95th-percentile per-frame latency, microseconds.
    pub p95_time_us: u64,
    /// Number of frames processed.
    pub frames_processed: usize,
}

/// Latency bookkeeping of the model thread.
pub struct ModelDriver {
    /// Elapsed time of each `process_frame` call, microseconds.
    pub times_us: Vec<u32>,
}

impl ModelDriver {
    pub open spec fn wf(&self) -> bool {
        self.times_us@.len() <= MAX_FRAME_RECORDS
    }

    pub fn new() -> (r: Self)
        ensures
            r.wf(),
            r.times_us@.len() == 0,
    {
        ModelDriver { times_us: Vec::new() }
    }

    /// Record the elapsed time of one processed frame.
    pub fn record_frame_time(&mut self, us: u32)
        requires
            old(self).wf(),
            old(self).times_us@.len() < MAX_FRAME_RECORDS,
        ensures
            final(self).wf(),
            final(self).times_us@ == old(self).times_us@.push(us),
    {
        self.times_us.push(us);
    }

    /// Number of frames recorded so far.
    pub fn frame_count(&self) -> (r: usize)
        ensures
            r == self.times_us@.len(),
    {
        self.times_us.len()
    }

    /// Mean and 95th-percentile latency over the sorted record, and the
    /// frame count; all zero when no frame was processed.
    pub fn get_stats(&self) -> (r: ModelStats)
        requires
            self.wf(),
        ensures
            r.frames_processed == self.times_us@.len(),
            self.times_us@.len() == 0 ==> r.avg_time_us == 0 && r.p95_time_us == 0,
            self.times_us@.len() > 0 ==> r.avg_time_us == seq_sum(self.times_us@) / (
            self.times_us@.len() as int),
            self.times_us@.len() > 0 ==> r.p95_time_us == sorted_times(self.times_us@)[p95_index(
                self.times_us@.len() as int,
            )],
    {
        let n = self.times_us.len();
        if n == 0 {
            return ModelStats { avg_time_us: 0, p95_time_us: 0, frames_processed: 0 };
        }

        let mut sum: u64 = 0;
        let mut i: usize = 0;
        while i < n
            invariant
                i <= n,
                n == self.times_us@.len(),
                n <= MAX_FRAME_RECORDS,
                sum == seq_sum(self.times_us@.take(i as int)),
                sum <= i * 0xFFFF_FFFFu64,
            decreases n - i,
        {
            proof {
                assert(self.times_us@.take(i + 1).drop_last() == self.times_us@.take(i as int));
            }
            sum = sum + self.times_us[i] as u64;
            i = i + 1;
        }
        proof {
            assert(self.times_us@.take(n as int) == self.times_us@);
        }

        let mut sorted: Vec<u32> = Vec::new();
        let mut j: usize = 0;
        while j < n
            invariant
                j <= n,
                n == self.times_us@.len(),
                sorted@ == self.times_us@.take(j as int),
            decreases n - j,
        {
            sorted.push(self.times_us[j]);
            assert(sorted@ == self.times_us@.take(j + 1));
            j = j + 1;
        }
        assert(sorted@ == self.times_us@);
        sort_u32(&mut sorted);

        let idx64: u64 = (n as u64) * 95 / 100;
        proof {
            let q = 95 * (n as int) / 100;
            vstd::arithmetic::div_mod::lemma_fundamental_div_mod(95 * (n as int), 100);
            vstd::arithmetic::div_mod::lemma_mod_bound(95 * (n as int), 100);
            assert(q < n as int);
            assert(idx64 == p95_index(n as int));
        }
        let idx: usize = idx64 as usize;
        let p95 = sorted[idx];
        ModelStats {
            avg_time_us: sum / (n as u64),
            p95_time_us: p95 as u64,
            frames_processed: n,
        }
    }
}

/// Sort a latency record in place, ascending.
pub fn sort_u32(v: &mut Vec<u32>)
    ensures
        final(v)@ == sorted_times(old(v)@),
        final(v)@.len() == old(v)@.len(),
{
    let ghost orig = old(v)@;
    let n = v.len();
    if n > 1 {
        let mut i: usize = 1;
        while i < n
            invariant
                1 <= i <= n,
                n == v@.len(),
                n == orig.len(),
                v@.to_multiset() == orig.to_multiset(),
                sorted_by(v@.take(i as int), u32_le()),
            decreases n - i,
        {
            let mut j: usize = i;
            while j > 0 && v[j - 1] > v[j]
                invariant
                    0 <= j <= i < n,
                    n == v@.len(),
                    n == orig.len(),
                    v@.to_multiset() == orig.to_multiset(),
                    sorted_by(v@.subrange(0, j as int), u32_le()),
                    sorted_by(v@.subrange(j as int, i + 1), u32_le()),
                    forall|k: int, l: int|
                        0 <= k < j && j < l <= i ==> u32_le()(v@[k], v@[l]),
                decreases j,
            {
                let ghost before = v@;
                let a = v[j - 1];
                let b = v[j];
                v[j - 1] = b;
                v[j] = a;
                proof {
                    broadcast use vstd::seq_lib::group_to_multiset_ensures;

                    assert(v@.to_multiset() =~= before.to_multiset());
                    let jj = j as int;
                    // the prefix below the swap is untouched and stays sorted
                    assert(sorted_by(v@.subrange(0, jj - 1), u32_le())) by {
                        assert forall|k: int, l: int|
                            #![trigger v@.subrange(0, jj - 1)[k], v@.subrange(0, jj - 1)[l]]
                            0 <= k < l < jj - 1 implies u32_le()(
                            v@.subrange(0, jj - 1)[k],
                            v@.subrange(0, jj - 1)[l],
                        ) by {
                            assert(v@.subrange(0, jj - 1)[k] == before.subrange(0, jj)[k]);
                            assert(v@.subrange(0, jj - 1)[l] == before.subrange(0, jj)[l]);
                        }
                    }
                    // the segment from the swap to i is sorted: the moved
                    // element is below everything that was after it
                    assert(sorted_by(v@.subrange(jj - 1, i + 1), u32_le())) by {
                        let seg = v@.subrange(jj - 1, i + 1);
                        let pre_seg = before.subrange(jj, i + 1);
                        assert forall|k: int, l: int|
                            #![trigger seg[k], seg[l]]
                            0 <= k < l < seg.len() implies u32_le()(seg[k], seg[l]) by {
                            if k == 0 {
                                assert(seg[0] == before[jj]);
                                if l >= 2 {
                                    assert(seg[l] == pre_seg[l - 1]);
                                }
                            } else if k == 1 {
                                assert(seg[1] == before[jj - 1]);
                                assert(seg[l] == pre_seg[l - 1]);
                                assert(u32_le()(pre_seg[0], pre_seg[l - 1]));
                            } else {
                                assert(seg[k] == pre_seg[k - 1]);
                                assert(seg[l] == pre_seg[l - 1]);
                            }
                        }
                    }
                    // everything strictly below the new swap point is below
                    // everything strictly above it
                    assert forall|k: int, l: int|
                        #![trigger v@[k], v@[l]]
                        0 <= k < jj - 1 && jj - 1 < l <= i implies u32_le()(v@[k], v@[l]) by {
                        assert(v@[k] == before[k]);
                        assert(before.subrange(0, jj)[k] == before[k]);
                        assert(before.subrange(0, jj)[jj - 1] == before[jj - 1]);
                        if l == jj {
                            assert(v@[l] == before[jj - 1]);
                        } else {
                            assert(v@[l] == before[l]);
                            assert(u32_le()(before[k], before[jj - 1]));
                        }
                    }
                }
                j = j - 1;
            }
            proof {
                let jj = j as int;
                assert(sorted_by(v@.take(i + 1), u32_le())) by {
                    let s = v@.take(i + 1);
                    assert forall|k: int, l: int|
                        #![trigger s[k], s[l]]
                        0 <= k < l < s.len() implies u32_le()(s[k], s[l]) by {
                        assert(s[k] == v@[k]);
                        assert(s[l] == v@[l]);
                        if l < jj {
                            assert(v@.subrange(0, jj)[k] == v@[k]);
                            assert(v@.subrange(0, jj)[l] == v@[l]);
                        } else if k >= jj {
                            assert(v@.subrange(jj, i + 1)[k - jj] == v@[k]);
                            assert(v@.subrange(jj, i + 1)[l - jj] == v@[l]);
                        } else {
                            // k < j <= l: go through the element at j, which
                            // tops the prefix (the loop exit condition)
                            assert(v@.subrange(0, jj)[k] == v@[k]);
                            assert(v@.subrange(jj, i + 1)[l - jj] == v@[l]);
                            if j > 0 {
                                assert(v@.subrange(0, jj)[jj - 1] == v@[jj - 1]);
                                assert(u32_le()(v@[k], v@[jj - 1]));
                                assert(v@.subrange(jj, i + 1)[0] == v@[jj]);
                                assert(u32_le()(v@[jj], v@[l]));
                            }
                        }
                    }
                }
            }
            i = i + 1;
        }
        proof {
            assert(v@.take(n as int) == v@);
        }
    }
    proof {
        assert(sorted_by(v@, u32_le())) by {
            if n <= 1 {
                assert forall|k: int, l: int|
                    #![trigger v@[k], v@[l]]
                    0 <= k < l < v@.len() implies u32_le()(v@[k], v@[l]) by {}
            }
        }
        orig.lemma_sort_by_ensures(u32_le());
        lemma_total_u32_le();
        lemma_sorted_unique(v@, sorted_times(orig), u32_le());
    }
}

/// `u32_le` is a total ordering, so a sorted permutation is unique.
proof fn lemma_total_u32_le()
    ensures
        total_ordering(u32_le()),
{
}

/// One outcome observed by the model thread's receive loop.
pub enum ModelEvent {
    /// A frame was processed: how many samples the generated chunk holds
    /// and whether a text fragment came with it.
    Processed { audio_len: usize, has_text: bool },
    /// The processor returned an error.
    ProcessorFailed,
    /// The 100 ms receive poll timed out; carries the shutdown flag.
    TimedOut { shutdown: bool },
    /// The input channel closed.
    InputClosed,
}

/// What the model thread does in response to one event.
#[derive(Clone, Copy, Debug, PartialEq, Eq, Structural)]
pub struct DriverAction {
    /// Forward the generated chunk downstream.
    pub send_audio: bool,
    /// Forward the text fragment downstream.
    pub send_text: bool,
    /// Set the shutdown flag.
    pub set_shutdown: bool,
    /// Leave the receive loop.
    pub stop: bool,
}

/// Decision of the model thread for one observed event: forward non-empty
/// audio and any text after a processed frame; on a processor error or a
/// closed input, set the shutdown flag and stop; on a timeout, keep
/// polling unless shutdown was requested.
pub fn driver_step(event: &ModelEvent) -> (a: DriverAction)
    ensures
        (*event matches ModelEvent::Processed { audio_len, has_text } ==> a == (DriverAction {
            send_audio: audio_len > 0,
            send_text: has_text,
            set_shutdown: false,
            stop: false,
        })),
        event is ProcessorFailed ==> a == (DriverAction {
            send_audio: false,
            send_text: false,
            set_shutdown: true,
            stop: true,
        }),
        (*event matches ModelEvent::TimedOut { shutdown } ==> a == (DriverAction {
            send_audio: false,
            send_text: false,
            set_shutdown: false,
            stop: shutdown,
        })),
        event is InputClosed ==> a == (DriverAction {
            send_audio: false,
            send_text: false,
            set_shutdown: true,
            stop: true,
        }),
{
    match event {
        ModelEvent::Processed { audio_len, has_text } => DriverAction {
            send_audio: *audio_len > 0,
            send_text: *has_text,
            set_shutdown: false,
            stop: false,
        },
        ModelEvent::ProcessorFailed => DriverAction {
            send_audio: false,
            send_text: false,
            set_shutdown: true,
            stop: true,
        },
        ModelEvent::TimedOut { shutdown } => DriverAction {
            send_audio: false,
            send_text: false,
            set_shutdown: false,
            stop: *shutdown,
        },
        ModelEvent::InputClosed => DriverAction {
            send_audio: false,
            send_text: false,
            set_shutdown: true,
            stop: true,
        },
    }
}

} // verus!
