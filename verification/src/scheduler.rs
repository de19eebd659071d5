//! The scheduler: ready queues with their two-level priority bitmap, the current and idle
//! threads, the scheduler action, and domain scheduling.
use vstd::prelude::*;
use crate::bitmap::{
    bit_of, lemma_bit_or, lemma_bit_and_not, lemma_bit_nonzero, lemma_zero_no_bits, lemma_highest_bit,
    lemma_prio_split, lemma_prio_join, lemma_bits_equal,
};
use crate::config::{
    CONFIG_NUM_PRIORITIES, CONFIG_NUM_DOMAINS, NUM_READY_QUEUES, L2_BITMAP_SIZE, wordBits, wordRadix,
    CONFIG_TIME_SLICE, tcbReply,
};
use crate::fault::ThreadState;
use crate::cap::{cap, cte_t, mdb_node_t};
use crate::tcb::{tcb_t, ArchReg, is_runnable_spec, n_contextRegisters};
use crate::tcb_queue::{
    tcb_queue_t, queue_wf, queue_append, queue_remove, lemma_queue_wf_frame, prev_of, next_of,
    same_but_links, strip_links,
};

verus! {

/// Scheduler action: keep running the current thread.
pub const SchedulerAction_ResumeCurrentThread: usize = 0;
/// Scheduler action: choose a new thread.
pub const SchedulerAction_ChooseNewThread: usize = 1;
/// Number of entries in the domain schedule.
pub const ksDomScheduleLength: usize = 1;

/// A thread priority.
pub type prio_t = usize;

/// An entry of the domain schedule: a domain and how long it runs.
#[derive(Debug, PartialEq, Eq, Clone, Copy, Structural)]
pub struct dschedule_t {
    pub domain: usize,
    pub length: usize,
}

/// Per-node scheduler state. `ksReadyQueuesL2Bitmap` holds the second-level words of all
/// domains, `L2_BITMAP_SIZE` per domain.
pub struct SmpStateData {
    pub ipiReschedulePending: usize,
    pub ksReadyQueues: Vec<tcb_queue_t>,
    pub ksReadyQueuesL1Bitmap: Vec<u64>,
    pub ksReadyQueuesL2Bitmap: Vec<u64>,
    pub ksCurThread: usize,
    pub ksIdleThread: usize,
    pub ksSchedulerAction: usize,
    pub ksDebugTCBs: usize,
}

/// The kernel's threads and scheduling state. A thread pointer is an index into `tcbs`;
/// pointer 0 is null and pointer 1 is never a thread, so that neither can be taken for a
/// thread where the scheduler action holds one of its two codes.
pub struct KernelState {
    pub tcbs: Vec<tcb_t>,
    pub node: SmpStateData,
    pub ksCurDomain: usize,
    pub ksDomainTime: usize,
    pub ksDomScheduleIdx: usize,
    pub ksWorkUnitsCompleted: usize,
    pub ksDomSchedule: Vec<dschedule_t>,
}

/// Index of the ready queue of a domain and priority.
pub open spec fn rq_index(dom: int, prio: int) -> int {
    dom * CONFIG_NUM_PRIORITIES + prio
}

/// Index of the ready queue of a domain and priority.
pub fn ready_queues_index(dom: usize, prio: usize) -> (r: usize)
    requires
        dom < CONFIG_NUM_DOMAINS,
        prio < CONFIG_NUM_PRIORITIES,
    ensures
        r == rq_index(dom as int, prio as int),
        r < NUM_READY_QUEUES,
{
    dom * CONFIG_NUM_PRIORITIES + prio
}

/// Index, among a domain's second-level words, of the word of a priority.
pub open spec fn l2_word(dom: int, prio: int) -> int {
    dom * L2_BITMAP_SIZE + (L2_BITMAP_SIZE - 1 - prio / 64)
}

impl KernelState {
    /// Whether `p` points to a thread.
    pub open spec fn valid_tcb(&self, p: int) -> bool {
        2 <= p < self.tcbs.len()
    }

    /// The thread that `p` points to.
    pub open spec fn tcb(&self, p: int) -> tcb_t {
        self.tcbs@[p]
    }

    /// Whether thread `p` is in a ready queue.
    pub open spec fn queued(&self, p: int) -> bool {
        self.tcbs@[p].tcbState.tcbQueued != 0
    }

    /// The threads of the ready queue of a domain and priority, in order.
    pub open spec fn rq_of(&self, dom: int, prio: int) -> Seq<usize> {
        self.node.ksReadyQueues@[rq_index(dom, prio)].seq@
    }

    /// Whether the second-level bitmap marks the queue of a domain and priority non-empty.
    pub open spec fn l2_bit(&self, dom: int, prio: int) -> bool {
        bit_of(self.node.ksReadyQueuesL2Bitmap@[l2_word(dom, prio)], (prio % 64) as u64)
    }

    /// Whether the first-level bitmap marks second-level word `l` of a domain non-zero.
    pub open spec fn l1_bit(&self, dom: int, l: int) -> bool {
        bit_of(self.node.ksReadyQueuesL1Bitmap@[dom], l as u64)
    }

    /// The arrays have their sizes and every thread its layout, domain and priority in range.
    pub open spec fn shape_wf(&self) -> bool {
        &&& self.tcbs.len() >= 2
        &&& self.node.ksReadyQueues.len() == NUM_READY_QUEUES
        &&& self.node.ksReadyQueuesL1Bitmap.len() == CONFIG_NUM_DOMAINS
        &&& self.node.ksReadyQueuesL2Bitmap.len() == CONFIG_NUM_DOMAINS * L2_BITMAP_SIZE
        &&& forall|p: int|
            0 <= p < self.tcbs.len() ==> {
                &&& (#[trigger] self.tcbs@[p]).wf()
                &&& self.tcbs@[p].domain < CONFIG_NUM_DOMAINS
                &&& self.tcbs@[p].tcbPriority < CONFIG_NUM_PRIORITIES
            }
    }

    /// Every ready queue is a well-formed list over the scheduling links.
    pub open spec fn queues_wf(&self) -> bool {
        forall|d: int, p: int|
            0 <= d < CONFIG_NUM_DOMAINS && 0 <= p < CONFIG_NUM_PRIORITIES ==> queue_wf(
                self.node.ksReadyQueues@[rq_index(d, p)].head,
                self.node.ksReadyQueues@[rq_index(d, p)].tail,
                #[trigger] self.rq_of(d, p),
                self.tcbs@,
                false,
            )
    }

    /// A thread is queued exactly when it is in the ready queue of its domain and priority,
    /// and queued threads are threads.
    pub open spec fn membership_wf(&self) -> bool {
        &&& forall|d: int, p: int, i: int|
            0 <= d < CONFIG_NUM_DOMAINS && 0 <= p < CONFIG_NUM_PRIORITIES && 0 <= i < self.rq_of(d, p).len() ==> {
                let t = #[trigger] self.rq_of(d, p)[i] as int;
                &&& self.valid_tcb(t)
                &&& self.tcbs@[t].domain == d
                &&& self.tcbs@[t].tcbPriority == p
            }
        &&& forall|t: int|
            2 <= t < self.tcbs.len() ==> (#[trigger] self.queued(t) <==> self.rq_of(
                self.tcbs@[t].domain as int,
                self.tcbs@[t].tcbPriority as int,
            ).contains(t as usize))
        &&& !self.queued(0)
        &&& !self.queued(1)
    }

    /// The bitmaps record exactly which ready queues are non-empty.
    pub open spec fn bitmap_wf(&self) -> bool {
        &&& forall|d: int, p: int|
            0 <= d < CONFIG_NUM_DOMAINS && 0 <= p < CONFIG_NUM_PRIORITIES ==> (#[trigger] self.l2_bit(d, p)
                <==> self.rq_of(d, p).len() > 0)
        &&& forall|d: int, l: int|
            0 <= d < CONFIG_NUM_DOMAINS && 0 <= l < L2_BITMAP_SIZE ==> (#[trigger] self.l1_bit(d, l)
                <==> self.node.ksReadyQueuesL2Bitmap@[d * L2_BITMAP_SIZE + (L2_BITMAP_SIZE - 1 - l)] != 0)
        &&& forall|d: int, l: int|
            0 <= d < CONFIG_NUM_DOMAINS && L2_BITMAP_SIZE <= l < 64 ==> !#[trigger] self.l1_bit(d, l)
    }

    /// The current and idle threads are threads, and the scheduler action is one of its two
    /// codes or a thread.
    pub open spec fn pointers_wf(&self) -> bool {
        &&& self.valid_tcb(self.node.ksCurThread as int)
        &&& self.valid_tcb(self.node.ksIdleThread as int)
        &&& (self.node.ksSchedulerAction == SchedulerAction_ResumeCurrentThread
            || self.node.ksSchedulerAction == SchedulerAction_ChooseNewThread
            || self.valid_tcb(self.node.ksSchedulerAction as int))
        &&& self.ksCurDomain < CONFIG_NUM_DOMAINS
        &&& self.ksDomSchedule.len() == ksDomScheduleLength
        &&& self.ksDomScheduleIdx < ksDomScheduleLength
        &&& forall|i: int| 0 <= i < self.ksDomSchedule.len() ==> (#[trigger] self.ksDomSchedule@[i]).domain
            < CONFIG_NUM_DOMAINS
    }

    /// The scheduler's invariant.
    pub open spec fn wf(&self) -> bool {
        &&& self.shape_wf()
        &&& self.queues_wf()
        &&& self.membership_wf()
        &&& self.bitmap_wf()
        &&& self.pointers_wf()
    }

    /// Marks the queue of a domain and priority non-empty in the bitmaps.
    pub fn addToBitmap(&mut self, _cpu: usize, dom: usize, prio: usize)
        requires
            old(self).shape_wf(),
            dom < CONFIG_NUM_DOMAINS,
            prio < CONFIG_NUM_PRIORITIES,
        ensures
            final(self).node.ksReadyQueuesL1Bitmap@ == old(self).node.ksReadyQueuesL1Bitmap@.update(
                dom as int,
                old(self).node.ksReadyQueuesL1Bitmap@[dom as int] | (1u64 << ((prio / 64) as u64)),
            ),
            final(self).node.ksReadyQueuesL2Bitmap@ == old(self).node.ksReadyQueuesL2Bitmap@.update(
                l2_word(dom as int, prio as int),
                old(self).node.ksReadyQueuesL2Bitmap@[l2_word(dom as int, prio as int)] | (1u64 << ((prio % 64) as u64)),
            ),
            final(self).tcbs == old(self).tcbs,
            final(self).node.ksReadyQueues == old(self).node.ksReadyQueues,
            final(self).node.ksCurThread == old(self).node.ksCurThread,
            final(self).node.ksIdleThread == old(self).node.ksIdleThread,
            final(self).node.ksSchedulerAction == old(self).node.ksSchedulerAction,
            final(self).same_sched_ptrs(old(self)),
    {
        let p = prio as u64;
        proof {
            lemma_prio_split(p);
        }
        let l1index = p >> (wordRadix as u64);
        let l1index_inverted = L2_BITMAP_SIZE - 1 - (l1index as usize);
        let w1 = self.node.ksReadyQueuesL1Bitmap[dom] | (1u64 << l1index);
        self.node.ksReadyQueuesL1Bitmap.set(dom, w1);
        let i2 = dom * L2_BITMAP_SIZE + l1index_inverted;
        let w2 = self.node.ksReadyQueuesL2Bitmap[i2] | (1u64 << (p & 63u64));
        self.node.ksReadyQueuesL2Bitmap.set(i2, w2);
    }

    /// Marks the queue of a domain and priority empty in the second-level bitmap, and its
    /// word empty in the first level if no priority of that word is left.
    pub fn removeFromBitmap(&mut self, _cpu: usize, dom: usize, prio: usize)
        requires
            old(self).shape_wf(),
            dom < CONFIG_NUM_DOMAINS,
            prio < CONFIG_NUM_PRIORITIES,
        ensures
            ({
                let w2 = old(self).node.ksReadyQueuesL2Bitmap@[l2_word(dom as int, prio as int)] & !(1u64 << ((prio % 64) as u64));
                &&& final(self).node.ksReadyQueuesL2Bitmap@ == old(self).node.ksReadyQueuesL2Bitmap@.update(
                    l2_word(dom as int, prio as int),
                    w2,
                )
                &&& final(self).node.ksReadyQueuesL1Bitmap@ == if w2 == 0 {
                    old(self).node.ksReadyQueuesL1Bitmap@.update(
                        dom as int,
                        old(self).node.ksReadyQueuesL1Bitmap@[dom as int] & !(1u64 << ((prio / 64) as u64)),
                    )
                } else {
                    old(self).node.ksReadyQueuesL1Bitmap@
                }
            }),
            final(self).tcbs == old(self).tcbs,
            final(self).node.ksReadyQueues == old(self).node.ksReadyQueues,
            final(self).node.ksCurThread == old(self).node.ksCurThread,
            final(self).node.ksIdleThread == old(self).node.ksIdleThread,
            final(self).node.ksSchedulerAction == old(self).node.ksSchedulerAction,
            final(self).same_sched_ptrs(old(self)),
    {
        let p = prio as u64;
        proof {
            lemma_prio_split(p);
        }
        let l1index = p >> (wordRadix as u64);
        let l1index_inverted = L2_BITMAP_SIZE - 1 - (l1index as usize);
        let i2 = dom * L2_BITMAP_SIZE + l1index_inverted;
        let w2 = self.node.ksReadyQueuesL2Bitmap[i2] & !(1u64 << (p & 63u64));
        self.node.ksReadyQueuesL2Bitmap.set(i2, w2);
        if w2 == 0 {
            let w1 = self.node.ksReadyQueuesL1Bitmap[dom] & !(1u64 << l1index);
            self.node.ksReadyQueuesL1Bitmap.set(dom, w1);
        }
    }

    /// The highest priority with a non-empty ready queue in a domain that has one.
    fn getHighestPrio(&self, dom: usize) -> (r: prio_t)
        requires
            self.wf(),
            dom < CONFIG_NUM_DOMAINS,
            self.node.ksReadyQueuesL1Bitmap@[dom as int] != 0,
        ensures
            r < CONFIG_NUM_PRIORITIES,
            self.rq_of(dom as int, r as int).len() > 0,
            forall|q: int| r < q < CONFIG_NUM_PRIORITIES ==> #[trigger] self.rq_of(dom as int, q).len() == 0,
    {
        let w1 = self.node.ksReadyQueuesL1Bitmap[dom];
        proof {
            lemma_highest_bit(w1);
        }
        let l1index = wordBits - 1 - w1.leading_zeros() as usize;
        proof {
            if l1index >= L2_BITMAP_SIZE {
                assert(self.l1_bit(dom as int, l1index as int));
            }
            assert(self.l1_bit(dom as int, l1index as int));
        }
        let l1index_inverted = L2_BITMAP_SIZE - 1 - l1index;
        let w2 = self.node.ksReadyQueuesL2Bitmap[dom * L2_BITMAP_SIZE + l1index_inverted];
        proof {
            lemma_highest_bit(w2);
        }
        let l2index = wordBits - 1 - w2.leading_zeros() as usize;
        proof {
            lemma_prio_join(l1index as u64, l2index as u64);
        }
        let r = ((l1index as u64) << (wordRadix as u64)) | (l2index as u64);
        let r = r as usize;
        proof {
            let d = dom as int;
            assert(r == l1index * 64 + l2index);
            assert(r / 64 == l1index && r % 64 == l2index);
            assert(self.l2_bit(d, r as int));
            assert forall|q: int| r < q < CONFIG_NUM_PRIORITIES implies #[trigger] self.rq_of(d, q).len() == 0 by {
                assert(q / 64 >= l1index);
                if q / 64 > l1index {
                    assert(!self.l1_bit(d, q / 64));
                    let wq = self.node.ksReadyQueuesL2Bitmap@[l2_word(d, q)];
                    assert(wq == 0);
                    lemma_zero_no_bits(wq, (q % 64) as u64);
                    assert(!self.l2_bit(d, q));
                } else {
                    assert(q % 64 > l2index);
                    assert(!bit_of(w2, (q % 64) as u64));
                    assert(!self.l2_bit(d, q));
                }
            }
        }
        r
    }

    /// Whether `prio` is at least every priority with a non-empty ready queue in the domain.
    pub fn isHighestPrio(&self, dom: usize, prio: prio_t) -> (r: bool)
        requires
            self.wf(),
            dom < CONFIG_NUM_DOMAINS,
        ensures
            r == (forall|q: int| prio < q < CONFIG_NUM_PRIORITIES ==> #[trigger] self.rq_of(dom as int, q).len() == 0),
    {
        if self.node.ksReadyQueuesL1Bitmap[dom] == 0 {
            proof {
                assert forall|q: int| prio < q < CONFIG_NUM_PRIORITIES implies #[trigger] self.rq_of(dom as int, q).len() == 0 by {
                    let l = q / 64;
                    lemma_zero_no_bits(self.node.ksReadyQueuesL1Bitmap@[dom as int], l as u64);
                    assert(!self.l1_bit(dom as int, l));
                    let wq = self.node.ksReadyQueuesL2Bitmap@[l2_word(dom as int, q)];
                    lemma_zero_no_bits(wq, (q % 64) as u64);
                    assert(!self.l2_bit(dom as int, q));
                }
            }
            true
        } else {
            let h = self.getHighestPrio(dom);
            h <= prio
        }
    }
}


/// The thread with its scheduling links and queued flag cleared.
pub open spec fn strip_sched(t: tcb_t) -> tcb_t {
    tcb_t {
        tcbSchedPrev: 0,
        tcbSchedNext: 0,
        tcbState: crate::fault::thread_state_t { tcbQueued: 0, ..t.tcbState },
        ..t
    }
}

impl KernelState {
    /// The threads of `other` up to scheduling links and queued flags.
    pub open spec fn same_threads(&self, other: &KernelState) -> bool {
        &&& self.tcbs.len() == other.tcbs.len()
        &&& forall|j: int| 0 <= j < self.tcbs.len() ==> strip_sched(#[trigger] self.tcbs@[j]) == strip_sched(other.tcbs@[j])
    }

    /// The scheduler state of `other` other than ready queues and bitmaps.
    pub open spec fn same_sched_ptrs(&self, other: &KernelState) -> bool {
        &&& self.node.ksCurThread == other.node.ksCurThread
        &&& self.node.ksIdleThread == other.node.ksIdleThread
        &&& self.node.ksSchedulerAction == other.node.ksSchedulerAction
        &&& self.node.ipiReschedulePending == other.node.ipiReschedulePending
        &&& self.node.ksDebugTCBs == other.node.ksDebugTCBs
        &&& self.ksCurDomain == other.ksCurDomain
        &&& self.ksDomainTime == other.ksDomainTime
        &&& self.ksDomScheduleIdx == other.ksDomScheduleIdx
        &&& self.ksWorkUnitsCompleted == other.ksWorkUnitsCompleted
        &&& self.ksDomSchedule@ == other.ksDomSchedule@
    }

    /// Every thread of `other` other than `t` and the threads of `s` is unchanged, scheduling
    /// links included.
    pub open spec fn others_kept(&self, other: &KernelState, s: Seq<usize>, t: int) -> bool {
        forall|j: int|
            0 < j < self.tcbs.len() && j != t && !s.contains(j as usize) ==> #[trigger] self.tcbs@[j]
                == other.tcbs@[j]
    }

    /// The ready queues of `other`, but for the queue of `(dom, prio)`.
    pub open spec fn same_queues_but(&self, other: &KernelState, dom: int, prio: int) -> bool {
        forall|d: int, p: int|
            0 <= d < CONFIG_NUM_DOMAINS && 0 <= p < CONFIG_NUM_PRIORITIES && (d != dom || p != prio)
                ==> #[trigger] self.rq_of(d, p) == other.rq_of(d, p)
    }
}


/// Thread `j`'s scheduling links are those of `o`'s thread `j`.
pub open spec fn same_sched_links(n: tcb_t, o: tcb_t) -> bool {
    n.tcbSchedPrev == o.tcbSchedPrev && n.tcbSchedNext == o.tcbSchedNext
}

proof fn lemma_shape_frame(o: KernelState, n: KernelState)
    requires
        o.shape_wf(),
        n.same_threads(&o),
        n.node.ksReadyQueues.len() == o.node.ksReadyQueues.len(),
        n.node.ksReadyQueuesL1Bitmap.len() == o.node.ksReadyQueuesL1Bitmap.len(),
        n.node.ksReadyQueuesL2Bitmap.len() == o.node.ksReadyQueuesL2Bitmap.len(),
    ensures
        n.shape_wf(),
        forall|j: int| 0 <= j < n.tcbs.len() ==> #[trigger] n.tcbs@[j].domain == o.tcbs@[j].domain
            && n.tcbs@[j].tcbPriority == o.tcbs@[j].tcbPriority && n.tcbs@[j].tcbState.tsType
            == o.tcbs@[j].tcbState.tsType,
{
    assert forall|j: int| 0 <= j < n.tcbs.len() implies (#[trigger] n.tcbs@[j]).wf() && n.tcbs@[j].domain
        < CONFIG_NUM_DOMAINS && n.tcbs@[j].tcbPriority < CONFIG_NUM_PRIORITIES by {
        assert(strip_sched(n.tcbs@[j]) == strip_sched(o.tcbs@[j]));
        assert(o.tcbs@[j].wf());
    }
    assert forall|j: int| 0 <= j < n.tcbs.len() implies #[trigger] n.tcbs@[j].domain == o.tcbs@[j].domain
        && n.tcbs@[j].tcbPriority == o.tcbs@[j].tcbPriority && n.tcbs@[j].tcbState.tsType
        == o.tcbs@[j].tcbState.tsType by {
        assert(strip_sched(n.tcbs@[j]) == strip_sched(o.tcbs@[j]));
    }
}

/// After the queue of `(d, p)` changed, the other queues are still well formed if their
/// threads kept their links.
proof fn lemma_queues_frame(o: KernelState, n: KernelState, d: int, p: int)
    requires
        o.wf(),
        n.tcbs.len() == o.tcbs.len(),
        n.node.ksReadyQueues.len() == o.node.ksReadyQueues.len(),
        0 <= d < CONFIG_NUM_DOMAINS,
        0 <= p < CONFIG_NUM_PRIORITIES,
        forall|dd: int, pp: int|
            0 <= dd < CONFIG_NUM_DOMAINS && 0 <= pp < CONFIG_NUM_PRIORITIES && (dd != d || pp != p) ==> 
                #[trigger] n.node.ksReadyQueues@[rq_index(dd, pp)] == o.node.ksReadyQueues@[rq_index(dd, pp)],
        forall|j: int|
            2 <= j < o.tcbs.len() && (o.tcbs@[j].domain != d || o.tcbs@[j].tcbPriority != p) ==> same_sched_links(
                #[trigger] n.tcbs@[j],
                o.tcbs@[j],
            ),
        queue_wf(
            n.node.ksReadyQueues@[rq_index(d, p)].head,
            n.node.ksReadyQueues@[rq_index(d, p)].tail,
            n.rq_of(d, p),
            n.tcbs@,
            false,
        ),
    ensures
        n.queues_wf(),
{
    assert forall|dd: int, pp: int|
        0 <= dd < CONFIG_NUM_DOMAINS && 0 <= pp < CONFIG_NUM_PRIORITIES implies queue_wf(
            n.node.ksReadyQueues@[rq_index(dd, pp)].head,
            n.node.ksReadyQueues@[rq_index(dd, pp)].tail,
            #[trigger] n.rq_of(dd, pp),
            n.tcbs@,
            false,
        ) by {
        if dd != d || pp != p {
            let so = o.rq_of(dd, pp);
            assert(n.node.ksReadyQueues@[rq_index(dd, pp)] == o.node.ksReadyQueues@[rq_index(dd, pp)]);
            assert(queue_wf(
                o.node.ksReadyQueues@[rq_index(dd, pp)].head,
                o.node.ksReadyQueues@[rq_index(dd, pp)].tail,
                o.rq_of(dd, pp),
                o.tcbs@,
                false,
            ));
            assert forall|i: int| 0 <= i < so.len() implies prev_of(n.tcbs@[#[trigger] so[i] as int], false)
                == prev_of(o.tcbs@[so[i] as int], false) && next_of(n.tcbs@[so[i] as int], false) == next_of(
                o.tcbs@[so[i] as int],
                false,
            ) by {
                let x = so[i] as int;
                assert(o.rq_of(dd, pp)[i] == so[i]);
                assert(same_sched_links(n.tcbs@[x], o.tcbs@[x]));
            }
            lemma_queue_wf_frame(
                o.node.ksReadyQueues@[rq_index(dd, pp)].head,
                o.node.ksReadyQueues@[rq_index(dd, pp)].tail,
                so,
                o.tcbs@,
                n.tcbs@,
                false,
            );
        }
    }
}

/// After the queue of `(d, p)` became `n.rq_of(d, p)`, membership holds if that queue
/// holds threads of `(d, p)` and the queued flags agree with it.
proof fn lemma_membership_frame(o: KernelState, n: KernelState, d: int, p: int)
    requires
        o.wf(),
        n.shape_wf(),
        n.tcbs.len() == o.tcbs.len(),
        0 <= d < CONFIG_NUM_DOMAINS,
        0 <= p < CONFIG_NUM_PRIORITIES,
        forall|j: int| 0 <= j < n.tcbs.len() ==> #[trigger] n.tcbs@[j].domain == o.tcbs@[j].domain
            && n.tcbs@[j].tcbPriority == o.tcbs@[j].tcbPriority,
        n.same_queues_but(&o, d, p),
        forall|i: int|
            0 <= i < n.rq_of(d, p).len() ==> o.valid_tcb(#[trigger] n.rq_of(d, p)[i] as int) && o.tcbs@[n.rq_of(
                d,
                p,
            )[i] as int].domain == d && o.tcbs@[n.rq_of(d, p)[i] as int].tcbPriority == p,
        forall|j: int|
            2 <= j < o.tcbs.len() ==> (#[trigger] n.queued(j) == if o.tcbs@[j].domain == d
                && o.tcbs@[j].tcbPriority == p { n.rq_of(d, p).contains(j as usize) } else { o.queued(j) }),
        !n.queued(0),
        !n.queued(1),
    ensures
        n.membership_wf(),
{
    assert forall|dd: int, pp: int, i: int|
        0 <= dd < CONFIG_NUM_DOMAINS && 0 <= pp < CONFIG_NUM_PRIORITIES && 0 <= i < n.rq_of(dd, pp).len() implies {
        let x = #[trigger] n.rq_of(dd, pp)[i] as int;
        &&& n.valid_tcb(x)
        &&& n.tcbs@[x].domain == dd
        &&& n.tcbs@[x].tcbPriority == pp
    } by {
        let x = n.rq_of(dd, pp)[i] as int;
        if dd != d || pp != p {
            assert(n.rq_of(dd, pp) == o.rq_of(dd, pp));
            assert(o.rq_of(dd, pp)[i] == x);
        }
        assert(n.tcbs@[x].domain == o.tcbs@[x].domain);
    }
    assert forall|j: int| 2 <= j < n.tcbs.len() implies (#[trigger] n.queued(j) <==> n.rq_of(
        n.tcbs@[j].domain as int,
        n.tcbs@[j].tcbPriority as int,
    ).contains(j as usize)) by {
        assert(n.tcbs@[j].domain == o.tcbs@[j].domain);
        let dj = o.tcbs@[j].domain as int;
        let pj = o.tcbs@[j].tcbPriority as int;
        if dj != d || pj != p {
            assert(n.rq_of(dj, pj) == o.rq_of(dj, pj));
            assert(o.queued(j) <==> o.rq_of(dj, pj).contains(j as usize));
        }
    }
}

/// After the queue of `(d, p)` changed, the bitmaps are consistent if the word of `(d, p)`
/// marks exactly that queue's emptiness among its bits and the first-level bit of that word
/// marks whether it is zero.
proof fn lemma_bitmap_frame(o: KernelState, n: KernelState, d: int, p: int)
    requires
        o.wf(),
        n.shape_wf(),
        0 <= d < CONFIG_NUM_DOMAINS,
        0 <= p < CONFIG_NUM_PRIORITIES,
        n.same_queues_but(&o, d, p),
        forall|c: u64| c < 64 ==> #[trigger] bit_of(n.node.ksReadyQueuesL2Bitmap@[l2_word(d, p)], c) == if c == p % 64 {
            n.rq_of(d, p).len() > 0
        } else {
            bit_of(o.node.ksReadyQueuesL2Bitmap@[l2_word(d, p)], c)
        },
        forall|k: int|
            0 <= k < n.node.ksReadyQueuesL2Bitmap.len() && k != l2_word(d, p)
                ==> #[trigger] n.node.ksReadyQueuesL2Bitmap@[k] == o.node.ksReadyQueuesL2Bitmap@[k],
        forall|c: u64| c < 64 ==> #[trigger] bit_of(n.node.ksReadyQueuesL1Bitmap@[d], c) == if c == p / 64 {
            n.node.ksReadyQueuesL2Bitmap@[l2_word(d, p)] != 0
        } else {
            bit_of(o.node.ksReadyQueuesL1Bitmap@[d], c)
        },
        forall|k: int|
            0 <= k < n.node.ksReadyQueuesL1Bitmap.len() && k != d ==> #[trigger] n.node.ksReadyQueuesL1Bitmap@[k]
                == o.node.ksReadyQueuesL1Bitmap@[k],
    ensures
        n.bitmap_wf(),
{
    assert forall|dd: int, pp: int|
        0 <= dd < CONFIG_NUM_DOMAINS && 0 <= pp < CONFIG_NUM_PRIORITIES implies (#[trigger] n.l2_bit(dd, pp)
            <==> n.rq_of(dd, pp).len() > 0) by {
        assert(o.l2_bit(dd, pp) <==> o.rq_of(dd, pp).len() > 0);
        if dd == d && pp == p {
        } else {
            assert(n.rq_of(dd, pp) == o.rq_of(dd, pp));
            if l2_word(dd, pp) == l2_word(d, p) {
                assert(pp % 64 != p % 64);
                assert(bit_of(n.node.ksReadyQueuesL2Bitmap@[l2_word(d, p)], (pp % 64) as u64) == bit_of(
                    o.node.ksReadyQueuesL2Bitmap@[l2_word(d, p)],
                    (pp % 64) as u64,
                ));
            }
        }
    }
    assert forall|dd: int, l: int|
        0 <= dd < CONFIG_NUM_DOMAINS && 0 <= l < L2_BITMAP_SIZE implies (#[trigger] n.l1_bit(dd, l)
            <==> n.node.ksReadyQueuesL2Bitmap@[dd * L2_BITMAP_SIZE + (L2_BITMAP_SIZE - 1 - l)] != 0) by {
        assert(o.l1_bit(dd, l) <==> o.node.ksReadyQueuesL2Bitmap@[dd * L2_BITMAP_SIZE + (L2_BITMAP_SIZE - 1 - l)] != 0);
        assert(bit_of(n.node.ksReadyQueuesL1Bitmap@[d], l as u64) == if l == p / 64 {
            n.node.ksReadyQueuesL2Bitmap@[l2_word(d, p)] != 0
        } else {
            bit_of(o.node.ksReadyQueuesL1Bitmap@[d], l as u64)
        });
    }
    assert forall|dd: int, l: int|
        0 <= dd < CONFIG_NUM_DOMAINS && L2_BITMAP_SIZE <= l < 64 implies !#[trigger] n.l1_bit(dd, l) by {
        assert(!o.l1_bit(dd, l));
        assert(bit_of(n.node.ksReadyQueuesL1Bitmap@[d], l as u64) == bit_of(o.node.ksReadyQueuesL1Bitmap@[d], l as u64));
    }
}


/// Appends thread `t` to the ready queue of its domain and priority, marking it queued.
#[verifier::spinoff_prover]
#[verifier::rlimit(60)]
fn ready_queue_append(ks: &mut KernelState, t: usize)
    requires
        old(ks).wf(),
        old(ks).valid_tcb(t as int),
        !old(ks).queued(t as int),
    ensures
        final(ks).wf(),
        final(ks).queued(t as int),
        final(ks).tcbs@[t as int].tcbState.tcbQueued == 1,
        final(ks).rq_of(old(ks).tcb(t as int).domain as int, old(ks).tcb(t as int).tcbPriority as int)
            == old(ks).rq_of(old(ks).tcb(t as int).domain as int, old(ks).tcb(t as int).tcbPriority as int).push(t),
        final(ks).same_queues_but(old(ks), old(ks).tcb(t as int).domain as int, old(ks).tcb(t as int).tcbPriority as int),
        final(ks).same_threads(old(ks)),
        final(ks).same_sched_ptrs(old(ks)),
        forall|j: int| 0 <= j < final(ks).tcbs.len() && j != t ==> #[trigger] final(ks).queued(j) == old(ks).queued(j),
        final(ks).others_kept(
            old(ks),
            old(ks).rq_of(old(ks).tcb(t as int).domain as int, old(ks).tcb(t as int).tcbPriority as int),
            t as int,
        ),
{
    let dom = ks.tcbs[t].domain;
    let prio = ks.tcbs[t].tcbPriority;
    let idx = ready_queues_index(dom, prio);
    let ghost d = dom as int;
    let ghost p = prio as int;
    let head = ks.node.ksReadyQueues[idx].head;
    let tail = ks.node.ksReadyQueues[idx].tail;
    let ghost s = ks.node.ksReadyQueues@[idx as int].seq@;
    proof {
        assert(s == ks.rq_of(d, p));
        assert(queue_wf(head, tail, s, ks.tcbs@, false));
        assert(!s.contains(t));
        lemma_prio_split(prio as u64);
    }
    if tail == 0 {
        ks.addToBitmap(0, dom, prio);
    }
    let ghost l1 = ks.node.ksReadyQueuesL1Bitmap@;
    let ghost l2 = ks.node.ksReadyQueuesL2Bitmap@;
    let (h, tl) = queue_append(head, tail, &mut ks.tcbs, t, false, Ghost(s));
    let ghost tcbs2 = ks.tcbs@;
    ks.node.ksReadyQueues[idx].head = h;
    ks.node.ksReadyQueues[idx].tail = tl;
    ks.node.ksReadyQueues[idx].seq = Ghost(s.push(t));
    ks.tcbs[t].tcbState.tcbQueued = 1;
    proof {
        let o = *old(ks);
        let n = *ks;
        assert forall|j: int| 0 <= j < n.tcbs.len() implies strip_sched(#[trigger] n.tcbs@[j]) == strip_sched(o.tcbs@[j]) by {
            assert(same_but_links(tcbs2[j], o.tcbs@[j], false));
            assert(strip_links(tcbs2[j], false) == strip_links(o.tcbs@[j], false));
        }
        lemma_shape_frame(o, n);
        assert forall|dd: int, pp: int|
            0 <= dd < CONFIG_NUM_DOMAINS && 0 <= pp < CONFIG_NUM_PRIORITIES && (dd != d || pp != p) implies
                #[trigger] n.node.ksReadyQueues@[rq_index(dd, pp)] == o.node.ksReadyQueues@[rq_index(dd, pp)] by {
        }
        assert(n.same_queues_but(&o, d, p));
        assert forall|j: int|
            2 <= j < o.tcbs.len() && (o.tcbs@[j].domain != d || o.tcbs@[j].tcbPriority != p) implies same_sched_links(
                #[trigger] n.tcbs@[j],
                o.tcbs@[j],
            ) by {
            assert(j != t);
            if tail != 0 {
                assert(s[s.len() - 1] == tail);
                assert(o.rq_of(d, p)[s.len() - 1] == tail);
                assert(j != tail);
            }
            assert(tcbs2[j] == o.tcbs@[j]);
        }
        lemma_queue_wf_frame(h, tl, s.push(t), tcbs2, n.tcbs@, false);
        lemma_queues_frame(o, n, d, p);
        assert forall|i: int| 0 <= i < n.rq_of(d, p).len() implies o.valid_tcb(#[trigger] n.rq_of(d, p)[i] as int)
            && o.tcbs@[n.rq_of(d, p)[i] as int].domain == d && o.tcbs@[n.rq_of(d, p)[i] as int].tcbPriority == p by {
            if i < s.len() {
                assert(n.rq_of(d, p)[i] == o.rq_of(d, p)[i]);
            }
        }
        assert forall|j: int| 2 <= j < o.tcbs.len() implies (#[trigger] n.queued(j) == if o.tcbs@[j].domain == d
            && o.tcbs@[j].tcbPriority == p { n.rq_of(d, p).contains(j as usize) } else { o.queued(j) }) by {
            if j == t {
                assert(n.rq_of(d, p)[s.len() as int] == t);
            } else {
                assert(n.tcbs@[j].tcbState == tcbs2[j].tcbState);
                assert(tcbs2[j].tcbState == o.tcbs@[j].tcbState) by {
                    assert(same_but_links(tcbs2[j], o.tcbs@[j], false));
                    assert(strip_links(tcbs2[j], false) == strip_links(o.tcbs@[j], false));
                }
                if o.tcbs@[j].domain == d && o.tcbs@[j].tcbPriority == p {
                    assert(o.queued(j) <==> o.rq_of(d, p).contains(j as usize));
                    if o.rq_of(d, p).contains(j as usize) {
                        let i = o.rq_of(d, p).index_of(j as usize);
                        assert(n.rq_of(d, p)[i] == j);
                    }
                    if n.rq_of(d, p).contains(j as usize) {
                        let i = n.rq_of(d, p).index_of(j as usize);
                        assert(i < s.len());
                        assert(o.rq_of(d, p)[i] == j);
                    }
                }
            }
        }
        assert(n.tcbs@[0].tcbState == o.tcbs@[0].tcbState) by {
            assert(same_but_links(tcbs2[0], o.tcbs@[0], false));
            assert(strip_links(tcbs2[0], false) == strip_links(o.tcbs@[0], false));
        }
        assert(n.tcbs@[1].tcbState == o.tcbs@[1].tcbState) by {
            assert(same_but_links(tcbs2[1], o.tcbs@[1], false));
            assert(strip_links(tcbs2[1], false) == strip_links(o.tcbs@[1], false));
        }
        lemma_membership_frame(o, n, d, p);
        let w2o = o.node.ksReadyQueuesL2Bitmap@[l2_word(d, p)];
        let w1o = o.node.ksReadyQueuesL1Bitmap@[d];
        assert(o.l2_bit(d, p) <==> o.rq_of(d, p).len() > 0);
        assert forall|c: u64| c < 64 implies #[trigger] bit_of(n.node.ksReadyQueuesL2Bitmap@[l2_word(d, p)], c) == if c
            == p % 64 { n.rq_of(d, p).len() > 0 } else { bit_of(w2o, c) } by {
            if tail == 0 {
                lemma_bit_or(w2o, (p % 64) as u64, c);
            }
        }
        assert forall|c: u64| c < 64 implies #[trigger] bit_of(n.node.ksReadyQueuesL1Bitmap@[d], c) == if c == p / 64 {
            n.node.ksReadyQueuesL2Bitmap@[l2_word(d, p)] != 0
        } else {
            bit_of(w1o, c)
        } by {
            lemma_bit_nonzero(n.node.ksReadyQueuesL2Bitmap@[l2_word(d, p)], (p % 64) as u64);
            if tail == 0 {
                lemma_bit_or(w1o, (p / 64) as u64, c);
            } else if c == p / 64 {
                lemma_bit_nonzero(w2o, (p % 64) as u64);
                assert(o.l1_bit(d, p / 64));
            }
        }
        lemma_bitmap_frame(o, n, d, p);
        assert(n.shape_wf());
        assert(n.queues_wf());
        assert(n.membership_wf());
        assert(n.bitmap_wf());
        assert(n.pointers_wf());
    }
    proof {
        let o = *old(ks);
        let n = *ks;
        assert forall|j: int|
            0 < j < n.tcbs.len() && j != t && !o.rq_of(d, p).contains(j as usize) implies #[trigger] n.tcbs@[j]
            == o.tcbs@[j] by {
            if tail != 0 {
                assert(s[s.len() - 1] == tail);
                assert(j != tail);
            }
            assert(tcbs2[j] == o.tcbs@[j]);
        }
    }
}


/// Taking the thread at position `k` out of queue `s` changes no thread outside the queue.
proof fn lemma_remove_others_kept(o: KernelState, n: KernelState, tcbs2: Seq<tcb_t>, s: Seq<usize>, k: int, t: int)
    requires
        0 <= k < s.len(),
        s[k] == t,
        0 <= t < tcbs2.len(),
        tcbs2.len() == o.tcbs.len(),
        forall|j: int|
            0 <= j < tcbs2.len() && (k == 0 || j != s[k - 1]) && (k == s.len() - 1 || j != s[k + 1])
                ==> #[trigger] tcbs2[j] == o.tcbs@[j],
        n.tcbs@ == tcbs2.update(t, n.tcbs@[t]),
    ensures
        n.others_kept(&o, s, t),
{
    assert forall|j: int| 0 < j < n.tcbs.len() && j != t && !s.contains(j as usize) implies #[trigger] n.tcbs@[j]
        == o.tcbs@[j] by {
        assert(n.tcbs@.len() == tcbs2.len());
        assert((j as usize) as int == j);
        if k > 0 {
            assert(s[k - 1] != j as usize);
        }
        if k < s.len() - 1 {
            assert(s[k + 1] != j as usize);
        }
        assert(tcbs2[j] == o.tcbs@[j]);
    }
}

/// Unlinks queued thread `t` from the ready queue of its domain and priority, clearing its
/// queued flag and, if the queue becomes empty, its bitmap bits.
#[verifier::spinoff_prover]
#[verifier::rlimit(100)]
fn ready_queue_remove(ks: &mut KernelState, t: usize)
    requires
        old(ks).wf(),
        old(ks).valid_tcb(t as int),
        old(ks).queued(t as int),
    ensures
        final(ks).wf(),
        !final(ks).queued(t as int),
        final(ks).rq_of(old(ks).tcb(t as int).domain as int, old(ks).tcb(t as int).tcbPriority as int)
            == old(ks).rq_of(old(ks).tcb(t as int).domain as int, old(ks).tcb(t as int).tcbPriority as int).remove_value(t),
        final(ks).same_queues_but(old(ks), old(ks).tcb(t as int).domain as int, old(ks).tcb(t as int).tcbPriority as int),
        final(ks).same_threads(old(ks)),
        final(ks).same_sched_ptrs(old(ks)),
        forall|j: int| 0 <= j < final(ks).tcbs.len() && j != t ==> #[trigger] final(ks).queued(j) == old(ks).queued(j),
        final(ks).others_kept(
            old(ks),
            old(ks).rq_of(old(ks).tcb(t as int).domain as int, old(ks).tcb(t as int).tcbPriority as int),
            t as int,
        ),
{
    let dom = ks.tcbs[t].domain;
    let prio = ks.tcbs[t].tcbPriority;
    let idx = ready_queues_index(dom, prio);
    let ghost d = dom as int;
    let ghost p = prio as int;
    let head = ks.node.ksReadyQueues[idx].head;
    let tail = ks.node.ksReadyQueues[idx].tail;
    let ghost s = ks.node.ksReadyQueues@[idx as int].seq@;
    let ghost k = s.index_of(t);
    proof {
        assert(s == ks.rq_of(d, p));
        assert(queue_wf(head, tail, s, ks.tcbs@, false));
        assert(s.contains(t));
        s.index_of_first_ensures(t);
        assert(s.remove_value(t) == s.remove(k));
        lemma_prio_split(prio as u64);
    }
    let prev = ks.tcbs[t].tcbSchedPrev;
    let next = ks.tcbs[t].tcbSchedNext;
    let (h, tl) = queue_remove(head, tail, &mut ks.tcbs, t, false, Ghost(s), Ghost(k));
    let ghost tcbs2 = ks.tcbs@;
    ks.node.ksReadyQueues[idx].head = h;
    ks.node.ksReadyQueues[idx].tail = tl;
    ks.node.ksReadyQueues[idx].seq = Ghost(s.remove(k));
    if prev == 0 && next == 0 {
        proof {
            assert(k == 0 && k == s.len() - 1) by {
                if k > 0 {
                    assert(s[k - 1] != 0);
                }
                if k < s.len() - 1 {
                    assert(s[k + 1] != 0);
                }
            }
        }
        ks.removeFromBitmap(0, dom, prio);
    }
    ks.tcbs[t].tcbState.tcbQueued = 0;
    proof {
        let o = *old(ks);
        let n = *ks;
        let s2 = s.remove(k);
        assert(s2.len() == 0 <==> (prev == 0 && next == 0)) by {
            if k > 0 {
                assert(s[k - 1] != 0);
            }
            if k < s.len() - 1 {
                assert(s[k + 1] != 0);
            }
        }
        assert forall|j: int| 0 <= j < n.tcbs.len() implies strip_sched(#[trigger] n.tcbs@[j]) == strip_sched(o.tcbs@[j]) by {
            assert(same_but_links(tcbs2[j], o.tcbs@[j], false));
            assert(strip_links(tcbs2[j], false) == strip_links(o.tcbs@[j], false));
        }
        lemma_shape_frame(o, n);
        assert forall|dd: int, pp: int|
            0 <= dd < CONFIG_NUM_DOMAINS && 0 <= pp < CONFIG_NUM_PRIORITIES && (dd != d || pp != p) implies
                #[trigger] n.node.ksReadyQueues@[rq_index(dd, pp)] == o.node.ksReadyQueues@[rq_index(dd, pp)] by {
        }
        assert(n.same_queues_but(&o, d, p));
        assert forall|j: int|
            2 <= j < o.tcbs.len() && (o.tcbs@[j].domain != d || o.tcbs@[j].tcbPriority != p) implies same_sched_links(
                #[trigger] n.tcbs@[j],
                o.tcbs@[j],
            ) by {
            assert(j != t);
            if k > 0 {
                assert(o.rq_of(d, p)[k - 1] == s[k - 1]);
                assert(j != s[k - 1]);
            }
            if k < s.len() - 1 {
                assert(o.rq_of(d, p)[k + 1] == s[k + 1]);
                assert(j != s[k + 1]);
            }
            assert(tcbs2[j] == o.tcbs@[j]);
        }
        assert forall|i: int| 0 <= i < s2.len() implies prev_of(n.tcbs@[#[trigger] s2[i] as int], false) == prev_of(
            tcbs2[s2[i] as int],
            false,
        ) && next_of(n.tcbs@[s2[i] as int], false) == next_of(tcbs2[s2[i] as int], false) by {
        }
        lemma_queue_wf_frame(h, tl, s2, tcbs2, n.tcbs@, false);
        lemma_queues_frame(o, n, d, p);
        assert forall|i: int| 0 <= i < n.rq_of(d, p).len() implies o.valid_tcb(#[trigger] n.rq_of(d, p)[i] as int)
            && o.tcbs@[n.rq_of(d, p)[i] as int].domain == d && o.tcbs@[n.rq_of(d, p)[i] as int].tcbPriority == p by {
            if i < k {
                assert(n.rq_of(d, p)[i] == o.rq_of(d, p)[i]);
            } else {
                assert(n.rq_of(d, p)[i] == o.rq_of(d, p)[i + 1]);
            }
        }
        assert forall|j: int| 2 <= j < o.tcbs.len() implies (#[trigger] n.queued(j) == if o.tcbs@[j].domain == d
            && o.tcbs@[j].tcbPriority == p { n.rq_of(d, p).contains(j as usize) } else { o.queued(j) }) by {
            if j == t {
                if s2.contains(t) {
                    let i = s2.index_of(t);
                    if i < k {
                        assert(s[i] == t);
                    } else {
                        assert(s[i + 1] == t);
                    }
                }
            } else {
                assert(n.tcbs@[j].tcbState == tcbs2[j].tcbState);
                assert(tcbs2[j].tcbState == o.tcbs@[j].tcbState) by {
                    assert(same_but_links(tcbs2[j], o.tcbs@[j], false));
                    assert(strip_links(tcbs2[j], false) == strip_links(o.tcbs@[j], false));
                }
                if o.tcbs@[j].domain == d && o.tcbs@[j].tcbPriority == p {
                    assert(o.queued(j) <==> o.rq_of(d, p).contains(j as usize));
                    if o.rq_of(d, p).contains(j as usize) {
                        let i = o.rq_of(d, p).index_of(j as usize);
                        assert(i != k);
                        if i < k {
                            assert(s2[i] == j);
                        } else {
                            assert(s2[i - 1] == j);
                        }
                    }
                    if s2.contains(j as usize) {
                        let i = s2.index_of(j as usize);
                        if i < k {
                            assert(s[i] == j);
                        } else {
                            assert(s[i + 1] == j);
                        }
                    }
                }
            }
        }
        assert(n.tcbs@[0].tcbState == o.tcbs@[0].tcbState) by {
            assert(same_but_links(tcbs2[0], o.tcbs@[0], false));
            assert(strip_links(tcbs2[0], false) == strip_links(o.tcbs@[0], false));
        }
        assert(n.tcbs@[1].tcbState == o.tcbs@[1].tcbState) by {
            assert(same_but_links(tcbs2[1], o.tcbs@[1], false));
            assert(strip_links(tcbs2[1], false) == strip_links(o.tcbs@[1], false));
        }
        lemma_membership_frame(o, n, d, p);
        let w2o = o.node.ksReadyQueuesL2Bitmap@[l2_word(d, p)];
        let w1o = o.node.ksReadyQueuesL1Bitmap@[d];
        assert(o.l2_bit(d, p) <==> o.rq_of(d, p).len() > 0);
        assert forall|c: u64| c < 64 implies #[trigger] bit_of(n.node.ksReadyQueuesL2Bitmap@[l2_word(d, p)], c) == if c
            == p % 64 { n.rq_of(d, p).len() > 0 } else { bit_of(w2o, c) } by {
            if prev == 0 && next == 0 {
                lemma_bit_and_not(w2o, (p % 64) as u64, c);
            }
        }
        assert forall|c: u64| c < 64 implies #[trigger] bit_of(n.node.ksReadyQueuesL1Bitmap@[d], c) == if c == p / 64 {
            n.node.ksReadyQueuesL2Bitmap@[l2_word(d, p)] != 0
        } else {
            bit_of(w1o, c)
        } by {
            assert(o.l1_bit(d, p / 64) <==> w2o != 0);
            lemma_bit_nonzero(w2o, (p % 64) as u64);
            if prev == 0 && next == 0 {
                let w2n = n.node.ksReadyQueuesL2Bitmap@[l2_word(d, p)];
                if w2n == 0 {
                    lemma_bit_and_not(w1o, (p / 64) as u64, c);
                }
            } else if c == p / 64 {
                lemma_bit_nonzero(w2o, (p % 64) as u64);
                assert(n.rq_of(d, p).len() > 0);
                assert(bit_of(n.node.ksReadyQueuesL2Bitmap@[l2_word(d, p)], (p % 64) as u64));
                lemma_bit_nonzero(n.node.ksReadyQueuesL2Bitmap@[l2_word(d, p)], (p % 64) as u64);
            }
        }
        lemma_bitmap_frame(o, n, d, p);
        assert(n.shape_wf());
        assert(n.queues_wf());
        assert(n.membership_wf());
        assert(n.bitmap_wf());
        assert(n.pointers_wf());
    }
    proof {
        lemma_remove_others_kept(*old(ks), *ks, tcbs2, s, k, t as int);
    }
}



/// Replacing one thread keeps the invariant if its layout stays valid, its links and queued
/// flag are unchanged, and, while it is queued, so are its domain and priority.
pub proof fn lemma_wf_tcb_update(o: KernelState, n: KernelState, t: int)
    requires
        o.wf(),
        2 <= t < o.tcbs.len(),
        n.tcbs@ == o.tcbs@.update(t, n.tcbs@[t]),
        n.node == o.node,
        n.ksCurDomain == o.ksCurDomain,
        n.ksDomScheduleIdx == o.ksDomScheduleIdx,
        n.ksDomSchedule@ == o.ksDomSchedule@,
        n.tcbs@[t].wf(),
        n.tcbs@[t].domain < CONFIG_NUM_DOMAINS,
        n.tcbs@[t].tcbPriority < CONFIG_NUM_PRIORITIES,
        n.tcbs@[t].tcbSchedPrev == o.tcbs@[t].tcbSchedPrev,
        n.tcbs@[t].tcbSchedNext == o.tcbs@[t].tcbSchedNext,
        n.tcbs@[t].tcbState.tcbQueued == o.tcbs@[t].tcbState.tcbQueued,
        o.queued(t) ==> n.tcbs@[t].domain == o.tcbs@[t].domain && n.tcbs@[t].tcbPriority == o.tcbs@[t].tcbPriority,
    ensures
        n.wf(),
{
    assert(n.shape_wf()) by {
        assert forall|p: int| 0 <= p < n.tcbs.len() implies {
            &&& (#[trigger] n.tcbs@[p]).wf()
            &&& n.tcbs@[p].domain < CONFIG_NUM_DOMAINS
            &&& n.tcbs@[p].tcbPriority < CONFIG_NUM_PRIORITIES
        } by {
            if p != t {
                assert(n.tcbs@[p] == o.tcbs@[p]);
            }
        }
    }
    assert forall|d: int, p: int| 0 <= d < CONFIG_NUM_DOMAINS && 0 <= p < CONFIG_NUM_PRIORITIES implies queue_wf(
        n.node.ksReadyQueues@[rq_index(d, p)].head,
        n.node.ksReadyQueues@[rq_index(d, p)].tail,
        #[trigger] n.rq_of(d, p),
        n.tcbs@,
        false,
    ) by {
        assert(n.rq_of(d, p) == o.rq_of(d, p));
        lemma_queue_wf_frame(
            o.node.ksReadyQueues@[rq_index(d, p)].head,
            o.node.ksReadyQueues@[rq_index(d, p)].tail,
            o.rq_of(d, p),
            o.tcbs@,
            n.tcbs@,
            false,
        );
    }
    assert forall|d: int, p: int, i: int|
        0 <= d < CONFIG_NUM_DOMAINS && 0 <= p < CONFIG_NUM_PRIORITIES && 0 <= i < n.rq_of(d, p).len() implies {
        let x = #[trigger] n.rq_of(d, p)[i] as int;
        &&& n.valid_tcb(x)
        &&& n.tcbs@[x].domain == d
        &&& n.tcbs@[x].tcbPriority == p
    } by {
        assert(n.rq_of(d, p) == o.rq_of(d, p));
        let x = o.rq_of(d, p)[i] as int;
        if x == t {
            assert(o.rq_of(o.tcbs@[t].domain as int, o.tcbs@[t].tcbPriority as int).contains(t as usize));
            assert(o.queued(t));
        }
    }
    assert forall|j: int| 2 <= j < n.tcbs.len() implies (#[trigger] n.queued(j) <==> n.rq_of(
        n.tcbs@[j].domain as int,
        n.tcbs@[j].tcbPriority as int,
    ).contains(j as usize)) by {
        assert(o.queued(j) <==> o.rq_of(o.tcbs@[j].domain as int, o.tcbs@[j].tcbPriority as int).contains(j as usize));
        if j == t && !o.queued(t) {
            let dn = n.tcbs@[t].domain as int;
            let pn = n.tcbs@[t].tcbPriority as int;
            if n.rq_of(dn, pn).contains(j as usize) {
                let i = n.rq_of(dn, pn).index_of(j as usize);
                assert(o.rq_of(dn, pn)[i] == j);
                assert(o.tcbs@[j].domain == dn && o.tcbs@[j].tcbPriority == pn);
            }
        }
    }
    assert forall|d: int, p: int|
        0 <= d < CONFIG_NUM_DOMAINS && 0 <= p < CONFIG_NUM_PRIORITIES implies (#[trigger] n.l2_bit(d, p)
            <==> n.rq_of(d, p).len() > 0) by {
        assert(o.l2_bit(d, p) <==> o.rq_of(d, p).len() > 0);
    }
    assert forall|d: int, l: int|
        0 <= d < CONFIG_NUM_DOMAINS && 0 <= l < L2_BITMAP_SIZE implies (#[trigger] n.l1_bit(d, l)
            <==> n.node.ksReadyQueuesL2Bitmap@[d * L2_BITMAP_SIZE + (L2_BITMAP_SIZE - 1 - l)] != 0) by {
        assert(o.l1_bit(d, l) <==> o.node.ksReadyQueuesL2Bitmap@[d * L2_BITMAP_SIZE + (L2_BITMAP_SIZE - 1 - l)] != 0);
    }
    assert forall|d: int, l: int|
        0 <= d < CONFIG_NUM_DOMAINS && L2_BITMAP_SIZE <= l < 64 implies !#[trigger] n.l1_bit(d, l) by {
        assert(!o.l1_bit(d, l));
    }
}

impl tcb_t {
    /// Puts thread `tcb` at the tail of the ready queue of its domain and priority, unless it
    /// is already queued.
    pub fn sched_enqueue(ks: &mut KernelState, tcb: usize)
        requires
            old(ks).wf(),
            old(ks).valid_tcb(tcb as int),
        ensures
            final(ks).wf(),
            final(ks).queued(tcb as int),
            old(ks).queued(tcb as int) ==> *final(ks) == *old(ks),
            !old(ks).queued(tcb as int) ==> final(ks).rq_of(
                old(ks).tcb(tcb as int).domain as int,
                old(ks).tcb(tcb as int).tcbPriority as int,
            ) == old(ks).rq_of(old(ks).tcb(tcb as int).domain as int, old(ks).tcb(tcb as int).tcbPriority as int).push(tcb),
            final(ks).same_queues_but(old(ks), old(ks).tcb(tcb as int).domain as int, old(ks).tcb(tcb as int).tcbPriority as int),
            final(ks).same_threads(old(ks)),
            final(ks).same_sched_ptrs(old(ks)),
            forall|j: int| 0 <= j < final(ks).tcbs.len() && j != tcb ==> #[trigger] final(ks).queued(j) == old(ks).queued(j),
            final(ks).enqueued_from(old(ks), tcb as int),
            final(ks).others_kept(
                old(ks),
                old(ks).rq_of(old(ks).tcb(tcb as int).domain as int, old(ks).tcb(tcb as int).tcbPriority as int),
                tcb as int,
            ),
    {
        if ks.tcbs[tcb].tcbState.tcbQueued == 0 {
            ready_queue_append(ks, tcb);
        }
    }

    /// Puts thread `tcb` at the tail of the ready queue of its domain and priority, unless it
    /// is already queued.
    pub fn sched_append(ks: &mut KernelState, tcb: usize)
        requires
            old(ks).wf(),
            old(ks).valid_tcb(tcb as int),
        ensures
            final(ks).wf(),
            final(ks).queued(tcb as int),
            old(ks).queued(tcb as int) ==> *final(ks) == *old(ks),
            !old(ks).queued(tcb as int) ==> final(ks).rq_of(
                old(ks).tcb(tcb as int).domain as int,
                old(ks).tcb(tcb as int).tcbPriority as int,
            ) == old(ks).rq_of(old(ks).tcb(tcb as int).domain as int, old(ks).tcb(tcb as int).tcbPriority as int).push(tcb),
            final(ks).same_queues_but(old(ks), old(ks).tcb(tcb as int).domain as int, old(ks).tcb(tcb as int).tcbPriority as int),
            final(ks).same_threads(old(ks)),
            final(ks).same_sched_ptrs(old(ks)),
            forall|j: int| 0 <= j < final(ks).tcbs.len() && j != tcb ==> #[trigger] final(ks).queued(j) == old(ks).queued(j),
            final(ks).enqueued_from(old(ks), tcb as int),
            final(ks).others_kept(
                old(ks),
                old(ks).rq_of(old(ks).tcb(tcb as int).domain as int, old(ks).tcb(tcb as int).tcbPriority as int),
                tcb as int,
            ),
    {
        if ks.tcbs[tcb].tcbState.tcbQueued == 0 {
            ready_queue_append(ks, tcb);
        }
    }

    /// Takes thread `tcb` out of its ready queue, if it is queued.
    pub fn sched_dequeue(ks: &mut KernelState, tcb: usize)
        requires
            old(ks).wf(),
            old(ks).valid_tcb(tcb as int),
        ensures
            final(ks).wf(),
            !final(ks).queued(tcb as int),
            !old(ks).queued(tcb as int) ==> *final(ks) == *old(ks),
            final(ks).rq_of(old(ks).tcb(tcb as int).domain as int, old(ks).tcb(tcb as int).tcbPriority as int)
                == old(ks).rq_of(old(ks).tcb(tcb as int).domain as int, old(ks).tcb(tcb as int).tcbPriority as int).remove_value(tcb),
            final(ks).same_queues_but(old(ks), old(ks).tcb(tcb as int).domain as int, old(ks).tcb(tcb as int).tcbPriority as int),
            final(ks).same_threads(old(ks)),
            final(ks).same_sched_ptrs(old(ks)),
            forall|j: int| 0 <= j < final(ks).tcbs.len() && j != tcb ==> #[trigger] final(ks).queued(j) == old(ks).queued(j),
            final(ks).dequeued_from(old(ks), tcb as int),
            final(ks).others_kept(
                old(ks),
                old(ks).rq_of(old(ks).tcb(tcb as int).domain as int, old(ks).tcb(tcb as int).tcbPriority as int),
                tcb as int,
            ),
    {
        if ks.tcbs[tcb].tcbState.tcbQueued != 0 {
            ready_queue_remove(ks, tcb);
        } else {
            proof {
                let o = *old(ks);
                let d = o.tcb(tcb as int).domain as int;
                let p = o.tcb(tcb as int).tcbPriority as int;
                assert(!o.queued(tcb as int));
                assert(!o.rq_of(d, p).contains(tcb));
                o.rq_of(d, p).index_of_first_ensures(tcb);
                assert(o.rq_of(d, p).remove_value(tcb) =~= o.rq_of(d, p));
                assert(ks.same_queues_but(old(ks), d, p));
                assert forall|j: int| 0 <= j < ks.tcbs.len() implies strip_sched(#[trigger] ks.tcbs@[j]) == strip_sched(
                    old(ks).tcbs@[j],
                ) by {
                }
            }
        }
    }
}


impl KernelState {
    /// The ready queues, queued flags and threads of `other`, up to scheduling links.
    pub open spec fn same_queues(&self, other: &KernelState) -> bool {
        &&& forall|d: int, p: int|
            0 <= d < CONFIG_NUM_DOMAINS && 0 <= p < CONFIG_NUM_PRIORITIES ==> #[trigger] self.rq_of(d, p)
                == other.rq_of(d, p)
        &&& self.same_threads(other)
        &&& forall|j: int| 0 <= j < self.tcbs.len() ==> #[trigger] self.queued(j) == other.queued(j)
    }

    /// The ready queues of `other` with thread `t` enqueued.
    pub open spec fn enqueued_from(&self, other: &KernelState, t: int) -> bool {
        let d = other.tcbs@[t].domain as int;
        let p = other.tcbs@[t].tcbPriority as int;
        &&& self.queued(t)
        &&& !other.queued(t) ==> self.tcbs@[t].tcbState.tcbQueued == 1
        &&& self.rq_of(d, p) == if other.queued(t) { other.rq_of(d, p) } else { other.rq_of(d, p).push(t as usize) }
        &&& self.same_queues_but(other, d, p)
        &&& self.same_threads(other)
        &&& forall|j: int| 0 <= j < self.tcbs.len() && j != t ==> #[trigger] self.queued(j) == other.queued(j)
    }

    /// The ready queues of `other` with thread `t` taken out.
    pub open spec fn dequeued_from(&self, other: &KernelState, t: int) -> bool {
        let d = other.tcbs@[t].domain as int;
        let p = other.tcbs@[t].tcbPriority as int;
        &&& !self.queued(t)
        &&& self.rq_of(d, p) == other.rq_of(d, p).remove_value(t as usize)
        &&& self.same_queues_but(other, d, p)
        &&& self.same_threads(other)
        &&& forall|j: int| 0 <= j < self.tcbs.len() && j != t ==> #[trigger] self.queued(j) == other.queued(j)
    }

    /// The ready queues of `other` with thread `t` moved to the tail of its queue.
    pub open spec fn requeued_from(&self, other: &KernelState, t: int) -> bool {
        let d = other.tcbs@[t].domain as int;
        let p = other.tcbs@[t].tcbPriority as int;
        &&& self.queued(t)
        &&& self.tcbs@[t].tcbState.tcbQueued == 1
        &&& self.rq_of(d, p) == other.rq_of(d, p).remove_value(t as usize).push(t as usize)
        &&& self.same_queues_but(other, d, p)
        &&& self.same_threads(other)
        &&& forall|j: int| 0 <= j < self.tcbs.len() && j != t ==> #[trigger] self.queued(j) == other.queued(j)
    }

    /// Every queued thread can run.
    pub open spec fn queued_runnable(&self) -> bool {
        forall|t: int| 2 <= t < self.tcbs.len() && #[trigger] self.queued(t) ==> is_runnable_spec(
            self.tcbs@[t].tcbState.tsType,
        )
    }
}


/// Two states with the same threads and ready queues agree on every queue and queued flag.
proof fn lemma_same_structure(a: KernelState, b: KernelState)
    requires
        a.tcbs@ == b.tcbs@,
        a.node.ksReadyQueues@ == b.node.ksReadyQueues@,
    ensures
        forall|d: int, p: int| #[trigger] a.rq_of(d, p) == b.rq_of(d, p),
        forall|j: int| #[trigger] a.queued(j) == b.queued(j),
        a.same_threads(&b),
{
}

/// The invariant survives a change of the pointers, given their own invariant.
proof fn lemma_wf_pointers(o: KernelState, n: KernelState)
    requires
        o.wf(),
        n.tcbs@ == o.tcbs@,
        n.node.ksReadyQueues@ == o.node.ksReadyQueues@,
        n.node.ksReadyQueuesL1Bitmap@ == o.node.ksReadyQueuesL1Bitmap@,
        n.node.ksReadyQueuesL2Bitmap@ == o.node.ksReadyQueuesL2Bitmap@,
        n.pointers_wf(),
    ensures
        n.wf(),
{
    lemma_same_structure(n, o);
    assert forall|d: int, p: int| 0 <= d < CONFIG_NUM_DOMAINS && 0 <= p < CONFIG_NUM_PRIORITIES implies queue_wf(
        n.node.ksReadyQueues@[rq_index(d, p)].head,
        n.node.ksReadyQueues@[rq_index(d, p)].tail,
        #[trigger] n.rq_of(d, p),
        n.tcbs@,
        false,
    ) by {
        assert(o.rq_of(d, p) == n.rq_of(d, p));
    }
    assert forall|d: int, p: int, i: int|
        0 <= d < CONFIG_NUM_DOMAINS && 0 <= p < CONFIG_NUM_PRIORITIES && 0 <= i < n.rq_of(d, p).len() implies {
        let x = #[trigger] n.rq_of(d, p)[i] as int;
        &&& n.valid_tcb(x)
        &&& n.tcbs@[x].domain == d
        &&& n.tcbs@[x].tcbPriority == p
    } by {
        assert(o.rq_of(d, p) == n.rq_of(d, p));
        assert(o.rq_of(d, p)[i] == n.rq_of(d, p)[i]);
    }
    assert forall|d: int, p: int|
        0 <= d < CONFIG_NUM_DOMAINS && 0 <= p < CONFIG_NUM_PRIORITIES implies (#[trigger] n.l2_bit(d, p)
            <==> n.rq_of(d, p).len() > 0) by {
        assert(o.l2_bit(d, p) <==> o.rq_of(d, p).len() > 0);
    }
    assert forall|d: int, l: int|
        0 <= d < CONFIG_NUM_DOMAINS && 0 <= l < L2_BITMAP_SIZE implies (#[trigger] n.l1_bit(d, l)
            <==> n.node.ksReadyQueuesL2Bitmap@[d * L2_BITMAP_SIZE + (L2_BITMAP_SIZE - 1 - l)] != 0) by {
        assert(o.l1_bit(d, l) <==> o.node.ksReadyQueuesL2Bitmap@[d * L2_BITMAP_SIZE + (L2_BITMAP_SIZE - 1 - l)] != 0);
    }
    assert forall|d: int, l: int|
        0 <= d < CONFIG_NUM_DOMAINS && L2_BITMAP_SIZE <= l < 64 implies !#[trigger] n.l1_bit(d, l) by {
        assert(!o.l1_bit(d, l));
    }
}

/// The pending scheduler action.
pub fn get_ks_scheduler_action(ks: &KernelState) -> (r: usize)
    ensures
        r == ks.node.ksSchedulerAction,
{
    ks.node.ksSchedulerAction
}

/// Sets the pending scheduler action.
pub fn set_ks_scheduler_action(ks: &mut KernelState, action: usize)
    requires
        old(ks).wf(),
        action == SchedulerAction_ResumeCurrentThread || action == SchedulerAction_ChooseNewThread
            || old(ks).valid_tcb(action as int),
    ensures
        final(ks).wf(),
        *final(ks) == (KernelState {
            node: SmpStateData { ksSchedulerAction: action, ..old(ks).node },
            ..*old(ks)
        }),
{
    ks.node.ksSchedulerAction = action;
    proof {
        lemma_wf_pointers(*old(ks), *ks);
    }
}

/// The current thread.
pub fn get_currenct_thread(ks: &KernelState) -> (r: usize)
    ensures
        r == ks.node.ksCurThread,
{
    ks.node.ksCurThread
}

/// Makes `t` the current thread.
pub fn set_current_thread(ks: &mut KernelState, t: usize)
    requires
        old(ks).wf(),
        old(ks).valid_tcb(t as int),
    ensures
        final(ks).wf(),
        *final(ks) == (KernelState { node: SmpStateData { ksCurThread: t, ..old(ks).node }, ..*old(ks) }),
{
    ks.node.ksCurThread = t;
    proof {
        lemma_wf_pointers(*old(ks), *ks);
    }
}

/// The idle thread.
pub fn get_idle_thread(ks: &KernelState) -> (r: usize)
    ensures
        r == ks.node.ksIdleThread,
{
    ks.node.ksIdleThread
}

/// The current domain.
pub fn get_current_domain(ks: &KernelState) -> (r: usize)
    ensures
        r == ks.ksCurDomain,
{
    ks.ksCurDomain
}

/// Requests that a new thread be chosen; a thread that was about to be switched to goes
/// back to its ready queue.
pub fn rescheduleRequired(ks: &mut KernelState)
    requires
        old(ks).wf(),
    ensures
        final(ks).wf(),
        final(ks).node.ksSchedulerAction == SchedulerAction_ChooseNewThread,
        old(ks).valid_tcb(old(ks).node.ksSchedulerAction as int) ==> final(ks).enqueued_from(
            old(ks),
            old(ks).node.ksSchedulerAction as int,
        ),
        !old(ks).valid_tcb(old(ks).node.ksSchedulerAction as int) ==> final(ks).same_queues(old(ks)),
        final(ks).node.ksCurThread == old(ks).node.ksCurThread,
        final(ks).node.ksIdleThread == old(ks).node.ksIdleThread,
        final(ks).ksCurDomain == old(ks).ksCurDomain,
        final(ks).ksDomainTime == old(ks).ksDomainTime,
        final(ks).ksDomScheduleIdx == old(ks).ksDomScheduleIdx,
        final(ks).ksDomSchedule@ == old(ks).ksDomSchedule@,
        final(ks).ksWorkUnitsCompleted == old(ks).ksWorkUnitsCompleted,
        final(ks).node.ipiReschedulePending == old(ks).node.ipiReschedulePending,
        final(ks).node.ksDebugTCBs == old(ks).node.ksDebugTCBs,
        final(ks).rescheduled_from(old(ks)),
        !old(ks).valid_tcb(old(ks).node.ksSchedulerAction as int) ==> *final(ks) == old(ks).with_action(
            SchedulerAction_ChooseNewThread,
        ),
        old(ks).valid_tcb(old(ks).node.ksSchedulerAction as int) ==> final(ks).others_kept(
            old(ks),
            old(ks).rq_of(
                old(ks).tcb(old(ks).node.ksSchedulerAction as int).domain as int,
                old(ks).tcb(old(ks).node.ksSchedulerAction as int).tcbPriority as int,
            ),
            old(ks).node.ksSchedulerAction as int,
        ),
{
    let action = get_ks_scheduler_action(ks);
    if action != SchedulerAction_ResumeCurrentThread && action != SchedulerAction_ChooseNewThread {
        tcb_t::sched_enqueue(ks, action);
    }
    let ghost k1 = *ks;
    set_ks_scheduler_action(ks, SchedulerAction_ChooseNewThread);
    proof {
        lemma_same_structure(*ks, k1);
    }
}

/// Requests a new thread if `t` is the current thread, no switch is pending, and `t`
/// can no longer run.
pub fn schedule_tcb(ks: &mut KernelState, t: usize)
    requires
        old(ks).wf(),
        old(ks).valid_tcb(t as int),
    ensures
        final(ks).wf(),
        *final(ks) == if t == old(ks).node.ksCurThread && old(ks).node.ksSchedulerAction
            == SchedulerAction_ResumeCurrentThread && !is_runnable_spec(old(ks).tcbs@[t as int].tcbState.tsType) {
            KernelState {
                node: SmpStateData { ksSchedulerAction: SchedulerAction_ChooseNewThread, ..old(ks).node },
                ..*old(ks)
            }
        } else {
            *old(ks)
        },
{
    if t == get_currenct_thread(ks) && get_ks_scheduler_action(ks) == SchedulerAction_ResumeCurrentThread
        && !ks.tcbs[t].is_runnable() {
        set_ks_scheduler_action(ks, SchedulerAction_ChooseNewThread);
    }
}

/// Sets the state of thread `t` and requests a new thread if the current thread can no
/// longer run.
pub fn set_thread_state(ks: &mut KernelState, t: usize, state: ThreadState)
    requires
        old(ks).wf(),
        old(ks).valid_tcb(t as int),
    ensures
        final(ks).wf(),
        final(ks).tcbs@ == old(ks).tcbs@.update(
            t as int,
            tcb_t {
                tcbState: crate::fault::thread_state_t { tsType: state, ..old(ks).tcbs@[t as int].tcbState },
                ..old(ks).tcbs@[t as int]
            },
        ),
        final(ks).node == (if t == old(ks).node.ksCurThread && old(ks).node.ksSchedulerAction
            == SchedulerAction_ResumeCurrentThread && !is_runnable_spec(state) {
            SmpStateData { ksSchedulerAction: SchedulerAction_ChooseNewThread, ..old(ks).node }
        } else {
            old(ks).node
        }),
        final(ks).ksCurDomain == old(ks).ksCurDomain,
        final(ks).ksDomainTime == old(ks).ksDomainTime,
        final(ks).ksDomScheduleIdx == old(ks).ksDomScheduleIdx,
        final(ks).ksWorkUnitsCompleted == old(ks).ksWorkUnitsCompleted,
        final(ks).ksDomSchedule@ == old(ks).ksDomSchedule@,
        final(ks).ksDomSchedule == old(ks).ksDomSchedule,
{
    ks.tcbs[t].tcbState.tsType = state;
    proof {
        lemma_wf_tcb_update(*old(ks), *ks, t as int);
    }
    schedule_tcb(ks, t);
}

impl tcb_t {
    /// Sets the state of thread `tcb`, requesting a new thread if the current thread can no
    /// longer run.
    pub fn set_state(ks: &mut KernelState, tcb: usize, state: ThreadState)
        requires
            old(ks).wf(),
            old(ks).valid_tcb(tcb as int),
        ensures
            final(ks).wf(),
            final(ks).tcbs@ == old(ks).tcbs@.update(
                tcb as int,
                tcb_t {
                    tcbState: crate::fault::thread_state_t { tsType: state, ..old(ks).tcbs@[tcb as int].tcbState },
                    ..old(ks).tcbs@[tcb as int]
                },
            ),
            final(ks).node == (if tcb == old(ks).node.ksCurThread && old(ks).node.ksSchedulerAction
                == SchedulerAction_ResumeCurrentThread && !is_runnable_spec(state) {
                SmpStateData { ksSchedulerAction: SchedulerAction_ChooseNewThread, ..old(ks).node }
            } else {
                old(ks).node
            }),
            final(ks).ksCurDomain == old(ks).ksCurDomain,
            final(ks).ksDomainTime == old(ks).ksDomainTime,
            final(ks).ksDomScheduleIdx == old(ks).ksDomScheduleIdx,
            final(ks).ksWorkUnitsCompleted == old(ks).ksWorkUnitsCompleted,
            final(ks).ksDomSchedule@ == old(ks).ksDomSchedule@,
    {
        set_thread_state(ks, tcb, state);
    }

    /// Whether thread `tcb` is the current thread.
    pub fn is_current(ks: &KernelState, tcb: usize) -> (r: bool)
        ensures
            r == (tcb == ks.node.ksCurThread),
    {
        tcb == ks.node.ksCurThread
    }
}


impl KernelState {
    /// This state with scheduler action `a`.
    pub open spec fn with_action(&self, a: usize) -> KernelState {
        KernelState { node: SmpStateData { ksSchedulerAction: a, ..self.node }, ..*self }
    }
}

impl KernelState {
    /// The scheduler's fields that do not change on their own: current and idle thread and the
    /// domain schedule.
    pub open spec fn same_domain_fields(&self, o: &KernelState) -> bool {
        &&& self.node.ksCurThread == o.node.ksCurThread
        &&& self.node.ksIdleThread == o.node.ksIdleThread
        &&& self.ksCurDomain == o.ksCurDomain
        &&& self.ksDomainTime == o.ksDomainTime
        &&& self.ksDomScheduleIdx == o.ksDomScheduleIdx
        &&& self.ksDomSchedule@ == o.ksDomSchedule@
    }

    /// `self` is `o` after a new choice of thread was requested: a pending candidate thread is
    /// queued first.
    pub open spec fn rescheduled_from(&self, o: &KernelState) -> bool {
        &&& self.node.ksSchedulerAction == SchedulerAction_ChooseNewThread
        &&& (o.valid_tcb(o.node.ksSchedulerAction as int) ==> self.enqueued_from(o, o.node.ksSchedulerAction as int))
        &&& (!o.valid_tcb(o.node.ksSchedulerAction as int) ==> self.same_queues(o))
        &&& self.same_domain_fields(o)
    }

    /// `self` is `o` after thread `t` was offered to the scheduler: in another domain it is
    /// queued; with a switch already pending, a new choice is requested and it is queued;
    /// otherwise it becomes the pending candidate.
    pub open spec fn switch_offered_from(&self, o: &KernelState, t: int) -> bool {
        &&& o.ksCurDomain != o.tcbs@[t].domain ==> {
            &&& self.enqueued_from(o, t)
            &&& self.same_sched_ptrs(o)
        }
        &&& o.ksCurDomain == o.tcbs@[t].domain && o.node.ksSchedulerAction != SchedulerAction_ResumeCurrentThread
            ==> exists|mid: KernelState|
            {
                &&& #[trigger] mid.rescheduled_from(o)
                &&& self.enqueued_from(&mid, t)
                &&& self.node.ksSchedulerAction == SchedulerAction_ChooseNewThread
            }
        &&& o.ksCurDomain == o.tcbs@[t].domain && o.node.ksSchedulerAction == SchedulerAction_ResumeCurrentThread
            ==> *self == o.with_action(t as usize)
        &&& self.same_domain_fields(o)
    }
}

/// Makes `target` runnable soon: in another domain it is only queued; with a switch
/// already pending, a new choice is requested and it is queued; otherwise the scheduler
/// is told to switch to it.
pub fn possible_switch_to(ks: &mut KernelState, target: usize)
    requires
        old(ks).wf(),
        old(ks).valid_tcb(target as int),
    ensures
        final(ks).wf(),
        old(ks).ksCurDomain != old(ks).tcbs@[target as int].domain ==> {
            &&& final(ks).enqueued_from(old(ks), target as int)
            &&& final(ks).same_sched_ptrs(old(ks))
        },
        old(ks).ksCurDomain == old(ks).tcbs@[target as int].domain && old(ks).node.ksSchedulerAction
            != SchedulerAction_ResumeCurrentThread ==> {
            &&& final(ks).node.ksSchedulerAction == SchedulerAction_ChooseNewThread
            &&& exists|mid: KernelState|
                {
                    &&& (old(ks).valid_tcb(old(ks).node.ksSchedulerAction as int) ==> mid.enqueued_from(
                        old(ks),
                        old(ks).node.ksSchedulerAction as int,
                    ))
                    &&& (!old(ks).valid_tcb(old(ks).node.ksSchedulerAction as int) ==> mid.same_queues(old(ks)))
                    &&& #[trigger] final(ks).enqueued_from(&mid, target as int)
                }
            &&& final(ks).node.ksCurThread == old(ks).node.ksCurThread
        },
        old(ks).ksCurDomain == old(ks).tcbs@[target as int].domain && old(ks).node.ksSchedulerAction
            == SchedulerAction_ResumeCurrentThread ==> *final(ks) == old(ks).with_action(target),
        final(ks).ksCurDomain == old(ks).ksCurDomain,
        final(ks).ksDomainTime == old(ks).ksDomainTime,
        final(ks).ksDomScheduleIdx == old(ks).ksDomScheduleIdx,
        final(ks).ksDomSchedule@ == old(ks).ksDomSchedule@,
        final(ks).node.ksIdleThread == old(ks).node.ksIdleThread,
        final(ks).node.ksCurThread == old(ks).node.ksCurThread,
        final(ks).switch_offered_from(old(ks), target as int),
{
    if ks.ksCurDomain != ks.tcbs[target].domain {
        tcb_t::sched_enqueue(ks, target);
    } else if get_ks_scheduler_action(ks) != SchedulerAction_ResumeCurrentThread {
        rescheduleRequired(ks);
        let ghost mid = *ks;
        tcb_t::sched_enqueue(ks, target);
        proof {
            assert(mid.tcbs@[target as int].domain == old(ks).tcbs@[target as int].domain) by {
                assert(strip_sched(mid.tcbs@[target as int]) == strip_sched(old(ks).tcbs@[target as int]));
            }
            assert(ks.enqueued_from(&mid, target as int));
        }
    } else {
        set_ks_scheduler_action(ks, target);
    }
}

/// Switches to thread `tcb`: it leaves its ready queue and becomes the current thread.
/// (Loading its address space is the caller's part.)
pub fn switch_to_this_thread(ks: &mut KernelState, tcb: usize)
    requires
        old(ks).wf(),
        old(ks).valid_tcb(tcb as int),
    ensures
        final(ks).wf(),
        final(ks).node.ksCurThread == tcb,
        !final(ks).queued(tcb as int),
        final(ks).rq_of(old(ks).tcb(tcb as int).domain as int, old(ks).tcb(tcb as int).tcbPriority as int)
            == old(ks).rq_of(old(ks).tcb(tcb as int).domain as int, old(ks).tcb(tcb as int).tcbPriority as int).remove_value(tcb),
        final(ks).same_queues_but(old(ks), old(ks).tcb(tcb as int).domain as int, old(ks).tcb(tcb as int).tcbPriority as int),
        final(ks).same_threads(old(ks)),
        final(ks).node.ksSchedulerAction == old(ks).node.ksSchedulerAction,
        final(ks).node.ksIdleThread == old(ks).node.ksIdleThread,
        final(ks).ksCurDomain == old(ks).ksCurDomain,
        final(ks).ksDomainTime == old(ks).ksDomainTime,
        final(ks).ksDomScheduleIdx == old(ks).ksDomScheduleIdx,
        final(ks).ksDomSchedule@ == old(ks).ksDomSchedule@,
        forall|j: int| 0 <= j < final(ks).tcbs.len() && j != tcb ==> #[trigger] final(ks).queued(j) == old(ks).queued(j),
{
    tcb_t::sched_dequeue(ks, tcb);
    let ghost k1 = *ks;
    set_current_thread(ks, tcb);
    proof {
        lemma_same_structure(*ks, k1);
    }
}

impl tcb_t {
    /// Switches to this thread: it leaves its ready queue and becomes the current thread.
    pub fn switch_to_this(ks: &mut KernelState, tcb: usize)
        requires
            old(ks).wf(),
            old(ks).valid_tcb(tcb as int),
        ensures
            final(ks).wf(),
            final(ks).node.ksCurThread == tcb,
            !final(ks).queued(tcb as int),
            final(ks).rq_of(old(ks).tcb(tcb as int).domain as int, old(ks).tcb(tcb as int).tcbPriority as int)
                == old(ks).rq_of(old(ks).tcb(tcb as int).domain as int, old(ks).tcb(tcb as int).tcbPriority as int).remove_value(tcb),
            final(ks).same_queues_but(old(ks), old(ks).tcb(tcb as int).domain as int, old(ks).tcb(tcb as int).tcbPriority as int),
            final(ks).same_threads(old(ks)),
            final(ks).node.ksSchedulerAction == old(ks).node.ksSchedulerAction,
            final(ks).node.ksIdleThread == old(ks).node.ksIdleThread,
            final(ks).ksCurDomain == old(ks).ksCurDomain,
            final(ks).ksDomainTime == old(ks).ksDomainTime,
            final(ks).ksDomScheduleIdx == old(ks).ksDomScheduleIdx,
            final(ks).ksDomSchedule@ == old(ks).ksDomSchedule@,
            forall|j: int| 0 <= j < final(ks).tcbs.len() && j != tcb ==> #[trigger] final(ks).queued(j) == old(ks).queued(j),
            final(ks).switched_from(old(ks), tcb as int),
    {
        switch_to_this_thread(ks, tcb);
    }
}

/// On a timer tick, a running thread uses up one tick of its time slice; when the slice is
/// spent it gets a fresh one, goes to the back of its ready queue, and a new thread is chosen.
pub fn timerTick(ks: &mut KernelState)
    requires
        old(ks).wf(),
    ensures
        final(ks).wf(),
        ({
            let c = old(ks).node.ksCurThread as int;
            let t = old(ks).tcbs@[c];
            if t.tcbState.tsType != ThreadState::ThreadStateRunning {
                *final(ks) == *old(ks)
            } else if t.tcbTimeSlice > 1 {
                &&& final(ks).tcbs@ == old(ks).tcbs@.update(c, tcb_t { tcbTimeSlice: (t.tcbTimeSlice - 1) as usize, ..t })
                &&& *final(ks) == (KernelState { tcbs: final(ks).tcbs, ..*old(ks) })
            } else {
                &&& final(ks).tcbs@[c].tcbTimeSlice == CONFIG_TIME_SLICE
                &&& final(ks).queued(c)
                &&& final(ks).node.ksSchedulerAction == SchedulerAction_ChooseNewThread
                &&& exists|k1: KernelState, k2: KernelState|
                    {
                        &&& k1.tcbs@ == old(ks).tcbs@.update(c, tcb_t { tcbTimeSlice: CONFIG_TIME_SLICE, ..t })
                        &&& k1.node == old(ks).node
                        &&& k2.enqueued_from(&k1, c)
                        &&& k2.node.ksSchedulerAction == old(ks).node.ksSchedulerAction
                        &&& (old(ks).valid_tcb(old(ks).node.ksSchedulerAction as int) ==> final(ks).enqueued_from(
                            &k2,
                            old(ks).node.ksSchedulerAction as int,
                        ))
                        &&& (!old(ks).valid_tcb(old(ks).node.ksSchedulerAction as int) ==> final(ks).same_queues(&k2))
                    }
            }
        }),
        final(ks).node.ksCurThread == old(ks).node.ksCurThread,
        final(ks).ksCurDomain == old(ks).ksCurDomain,
        final(ks).ksDomainTime == old(ks).ksDomainTime,
        final(ks).ksDomScheduleIdx == old(ks).ksDomScheduleIdx,
        final(ks).ksWorkUnitsCompleted == old(ks).ksWorkUnitsCompleted,
        final(ks).ksDomSchedule@ == old(ks).ksDomSchedule@,
{
    let current = get_currenct_thread(ks);
    if ks.tcbs[current].get_state() == ThreadState::ThreadStateRunning {
        if ks.tcbs[current].tcbTimeSlice > 1 {
            ks.tcbs[current].tcbTimeSlice = ks.tcbs[current].tcbTimeSlice - 1;
            proof {
                lemma_wf_tcb_update(*old(ks), *ks, current as int);
            }
        } else {
            ks.tcbs[current].tcbTimeSlice = CONFIG_TIME_SLICE;
            proof {
                lemma_wf_tcb_update(*old(ks), *ks, current as int);
            }
            let ghost k1 = *ks;
            tcb_t::sched_append(ks, current);
            let ghost k2 = *ks;
            proof {
                assert(strip_sched(k2.tcbs@[current as int]) == strip_sched(k1.tcbs@[current as int]));
                assert(k1.node == old(ks).node);
                assert(forall|d: int, p: int| #[trigger] k1.rq_of(d, p) == old(ks).rq_of(d, p));
                assert(k1.queued(current as int) == old(ks).queued(current as int));
            }
            rescheduleRequired(ks);
            proof {
                let c = current as int;
                assert(k2.enqueued_from(&k1, c));
                assert(strip_sched(k2.tcbs@[c]) == strip_sched(k1.tcbs@[c]));
                if k2.valid_tcb(k2.node.ksSchedulerAction as int) {
                    assert(ks.enqueued_from(&k2, k2.node.ksSchedulerAction as int));
                } else {
                    assert(ks.same_queues(&k2));
                }
                assert(ks.same_queues(&k2) || ks.enqueued_from(&k2, k2.node.ksSchedulerAction as int));
            }
        }
    }
}

/// Resumes the current thread: a restarting thread continues at its fault address and
/// becomes running; running and idle threads are left as they are.
pub fn activateThread(ks: &mut KernelState)
    requires
        old(ks).wf(),
        ({
            let s = old(ks).tcbs@[old(ks).node.ksCurThread as int].tcbState.tsType;
            s == ThreadState::ThreadStateRunning || s == ThreadState::ThreadStateRestart || s
                == ThreadState::ThreadStateIdleThreadState
        }),
    ensures
        final(ks).wf(),
        ({
            let c = old(ks).node.ksCurThread as int;
            let t = old(ks).tcbs@[c];
            if t.tcbState.tsType == ThreadState::ThreadStateRestart {
                &&& final(ks).tcbs@[c].tcbState.tsType == ThreadState::ThreadStateRunning
                &&& final(ks).tcbs@[c].tcbArch.registers@ == t.tcbArch.registers@.update(
                    crate::tcb::ELR_EL1 as int,
                    t.tcbArch.registers@[crate::tcb::FaultIP_REG as int],
                )
                &&& final(ks).tcbs@[c] == (tcb_t {
                    tcbArch: final(ks).tcbs@[c].tcbArch,
                    tcbState: crate::fault::thread_state_t { tsType: ThreadState::ThreadStateRunning, ..t.tcbState },
                    ..t
                })
                &&& final(ks).tcbs@ == old(ks).tcbs@.update(c, final(ks).tcbs@[c])
                &&& final(ks).node == old(ks).node
            } else {
                *final(ks) == *old(ks)
            }
        }),
        final(ks).activated_from(old(ks)),
{
    let thread = get_currenct_thread(ks);
    match ks.tcbs[thread].get_state() {
        ThreadState::ThreadStateRunning => {
            return;
        },
        ThreadState::ThreadStateRestart => {
            let pc = ks.tcbs[thread].tcbArch.get_register(ArchReg::FaultIP);
            ks.tcbs[thread].tcbArch.set_register(ArchReg::NextIP, pc);
            let ghost k0 = *ks;
            proof {
                lemma_wf_tcb_update(*old(ks), *ks, thread as int);
                assert(k0.tcbs@[thread as int] == (tcb_t { tcbArch: k0.tcbs@[thread as int].tcbArch, ..old(ks).tcbs@[thread as int] }));
            }
            set_thread_state(ks, thread, ThreadState::ThreadStateRunning);
            proof {
                assert(ks.tcbs@ =~= old(ks).tcbs@.update(thread as int, ks.tcbs@[thread as int]));
            }
        },
        _ => {
            return;
        },
    }
}


/// `p` is the highest priority with a non-empty ready queue in domain `dom`.
pub open spec fn is_highest_prio(ks: &KernelState, dom: int, p: int) -> bool {
    &&& 0 <= p < CONFIG_NUM_PRIORITIES
    &&& ks.rq_of(dom, p).len() > 0
    &&& forall|q: int| p < q < CONFIG_NUM_PRIORITIES ==> #[trigger] ks.rq_of(dom, q).len() == 0
}

proof fn lemma_remove_head(s: Seq<usize>)
    requires
        s.len() > 0,
        s.no_duplicates(),
    ensures
        s.remove_value(s[0]) == s.drop_first(),
{
    s.index_of_first_ensures(s[0]);
    assert(s.remove_value(s[0]) =~= s.drop_first());
}

impl KernelState {
    /// The state after moving to the next (with one entry, the first) entry of the domain
    /// schedule.
    pub open spec fn domain_advanced(&self) -> KernelState {
        KernelState {
            ksDomScheduleIdx: 0,
            ksWorkUnitsCompleted: 0,
            ksCurDomain: self.ksDomSchedule@[0].domain,
            ksDomainTime: self.ksDomSchedule@[0].length,
            ..*self
        }
    }

    /// `self` is `o` after choosing the thread to run: the head of the highest-priority
    /// non-empty ready queue leaves its queue and becomes current, or, with every queue
    /// empty, the idle thread becomes current.
    pub open spec fn chosen_from(&self, o: &KernelState) -> bool {
        &&& (forall|p: int| 0 <= p < CONFIG_NUM_PRIORITIES ==> #[trigger] o.rq_of(0, p).len() == 0) ==> *self
            == (KernelState { node: SmpStateData { ksCurThread: o.node.ksIdleThread, ..o.node }, ..*o })
        &&& !(forall|p: int| 0 <= p < CONFIG_NUM_PRIORITIES ==> #[trigger] o.rq_of(0, p).len() == 0) ==> exists|p: int|
            {
                &&& is_highest_prio(o, 0, p)
                &&& self.node.ksCurThread == o.rq_of(0, p)[0]
                &&& #[trigger] self.rq_of(0, p) == o.rq_of(0, p).drop_first()
                &&& self.same_queues_but(o, 0, p)
                &&& !self.queued(self.node.ksCurThread as int)
                &&& is_runnable_spec(self.tcbs@[self.node.ksCurThread as int].tcbState.tsType)
                &&& forall|j: int| 0 <= j < self.tcbs.len() && j != self.node.ksCurThread ==> #[trigger] self.queued(j) == o.queued(j)
            }
        &&& self.same_threads(o)
        &&& self.node.ksSchedulerAction == o.node.ksSchedulerAction
        &&& self.node.ksIdleThread == o.node.ksIdleThread
        &&& self.ksCurDomain == o.ksCurDomain
        &&& self.ksDomainTime == o.ksDomainTime
        &&& self.ksDomSchedule@ == o.ksDomSchedule@
        &&& self.ksDomScheduleIdx == o.ksDomScheduleIdx
    }

    /// `self` is `o` after choosing a new thread, moving first to the next domain if the
    /// current domain's time is up.
    pub open spec fn chose_new_from(&self, o: &KernelState) -> bool {
        if o.ksDomainTime == 0 {
            self.chosen_from(&o.domain_advanced())
        } else {
            self.chosen_from(o)
        }
    }

    /// `self` is `o` after switching to thread `t`: it leaves its ready queue and becomes
    /// current.
    pub open spec fn switched_from(&self, o: &KernelState, t: int) -> bool {
        &&& self.node.ksCurThread == t
        &&& self.dequeued_from(o, t)
        &&& self.node.ksSchedulerAction == o.node.ksSchedulerAction
        &&& self.node.ksIdleThread == o.node.ksIdleThread
        &&& self.ksCurDomain == o.ksCurDomain
        &&& self.ksDomainTime == o.ksDomainTime
        &&& self.ksDomScheduleIdx == o.ksDomScheduleIdx
        &&& self.ksDomSchedule@ == o.ksDomSchedule@
    }

    /// `self` is `o` with its current thread put back in its ready queue if it can run.
    pub open spec fn readied_current_from(&self, o: &KernelState) -> bool {
        let c = o.node.ksCurThread as int;
        if is_runnable_spec(o.tcbs@[c].tcbState.tsType) {
            &&& self.enqueued_from(o, c)
            &&& self.same_sched_ptrs(o)
        } else {
            *self == *o
        }
    }
}

/// Moves to the next entry of the domain schedule.
fn nextDomain(ks: &mut KernelState)
    requires
        old(ks).wf(),
    ensures
        final(ks).wf(),
        final(ks).ksDomScheduleIdx == 0,
        final(ks).ksWorkUnitsCompleted == 0,
        final(ks).ksCurDomain == old(ks).ksDomSchedule@[0].domain,
        final(ks).ksDomainTime == old(ks).ksDomSchedule@[0].length,
        final(ks).tcbs == old(ks).tcbs,
        final(ks).node == old(ks).node,
        final(ks).ksDomSchedule == old(ks).ksDomSchedule,
        *final(ks) == old(ks).domain_advanced(),
{
    ks.ksDomScheduleIdx = ks.ksDomScheduleIdx + 1;
    if ks.ksDomScheduleIdx >= ksDomScheduleLength {
        ks.ksDomScheduleIdx = 0;
    }
    ks.ksWorkUnitsCompleted = 0;
    ks.ksCurDomain = ks.ksDomSchedule[ks.ksDomScheduleIdx].domain;
    ks.ksDomainTime = ks.ksDomSchedule[ks.ksDomScheduleIdx].length;
    proof {
        lemma_wf_pointers(*old(ks), *ks);
    }
}

impl KernelState {
    /// The first thread of the highest-priority non-empty ready queue of domain 0 can run.
    pub open spec fn heads_runnable(&self) -> bool {
        forall|p: int|
            #[trigger] is_highest_prio(self, 0, p) ==> is_runnable_spec(
                self.tcbs@[self.rq_of(0, p)[0] as int].tcbState.tsType,
            )
    }
}

/// When every queued thread can run, so can the one that would be chosen.
proof fn lemma_queued_heads_runnable(k: KernelState)
    requires
        k.wf(),
        k.queued_runnable(),
    ensures
        k.heads_runnable(),
{
    assert forall|p: int| #[trigger] is_highest_prio(&k, 0, p) implies is_runnable_spec(
        k.tcbs@[k.rq_of(0, p)[0] as int].tcbState.tsType,
    ) by {
        let t = k.rq_of(0, p)[0] as int;
        assert(k.valid_tcb(t) && k.tcbs@[t].domain == 0 && k.tcbs@[t].tcbPriority == p);
        assert(k.rq_of(0, p).contains(t as usize));
        assert(k.queued(t));
    }
}

/// Switches to the first thread of the highest-priority non-empty ready queue of domain 0,
/// or to the idle thread if all of them are empty.
pub fn chooseThread(ks: &mut KernelState)
    requires
        old(ks).wf(),
        old(ks).heads_runnable(),
    ensures
        final(ks).wf(),
        (forall|p: int| 0 <= p < CONFIG_NUM_PRIORITIES ==> #[trigger] old(ks).rq_of(0, p).len() == 0) ==> *final(ks)
            == (KernelState { node: SmpStateData { ksCurThread: old(ks).node.ksIdleThread, ..old(ks).node }, ..*old(ks) }),
        !(forall|p: int| 0 <= p < CONFIG_NUM_PRIORITIES ==> #[trigger] old(ks).rq_of(0, p).len() == 0) ==> exists|p: int|
            {
                &&& is_highest_prio(old(ks), 0, p)
                &&& final(ks).node.ksCurThread == old(ks).rq_of(0, p)[0]
                &&& #[trigger] final(ks).rq_of(0, p) == old(ks).rq_of(0, p).drop_first()
                &&& final(ks).same_queues_but(old(ks), 0, p)
                &&& !final(ks).queued(final(ks).node.ksCurThread as int)
                &&& is_runnable_spec(final(ks).tcbs@[final(ks).node.ksCurThread as int].tcbState.tsType)
            },
        final(ks).same_threads(old(ks)),
        final(ks).node.ksSchedulerAction == old(ks).node.ksSchedulerAction,
        final(ks).node.ksIdleThread == old(ks).node.ksIdleThread,
        final(ks).ksCurDomain == old(ks).ksCurDomain,
        final(ks).ksDomainTime == old(ks).ksDomainTime,
        final(ks).ksDomSchedule@ == old(ks).ksDomSchedule@,
        final(ks).ksDomScheduleIdx == old(ks).ksDomScheduleIdx,
        final(ks).chosen_from(old(ks)),
{
    let dom: usize = 0;
    if ks.node.ksReadyQueuesL1Bitmap[dom] != 0 {
        let prio = ks.getHighestPrio(dom);
        let thread = ks.node.ksReadyQueues[ready_queues_index(dom, prio)].head;
        let ghost o = *old(ks);
        proof {
            let s = o.rq_of(0, prio as int);
            assert(queue_wf(
                o.node.ksReadyQueues@[rq_index(0, prio as int)].head,
                o.node.ksReadyQueues@[rq_index(0, prio as int)].tail,
                s,
                o.tcbs@,
                false,
            ));
            assert(thread == s[0]);
            assert(o.valid_tcb(s[0] as int));
            assert(o.tcbs@[thread as int].domain == 0 && o.tcbs@[thread as int].tcbPriority == prio);
            assert(o.queued(thread as int));
            lemma_remove_head(s);
        }
        tcb_t::switch_to_this(ks, thread);
        proof {
            assert(is_highest_prio(&o, 0, prio as int));
            assert(strip_sched(ks.tcbs@[thread as int]) == strip_sched(o.tcbs@[thread as int]));
        }
    } else {
        proof {
            let o = *old(ks);
            assert forall|p: int| 0 <= p < CONFIG_NUM_PRIORITIES implies #[trigger] o.rq_of(0, p).len() == 0 by {
                let l = p / 64;
                lemma_zero_no_bits(o.node.ksReadyQueuesL1Bitmap@[0], l as u64);
                assert(!o.l1_bit(0, l));
                let wq = o.node.ksReadyQueuesL2Bitmap@[l2_word(0, p)];
                lemma_zero_no_bits(wq, (p % 64) as u64);
                assert(!o.l2_bit(0, p));
            }
        }
        let idle = ks.node.ksIdleThread;
        set_current_thread(ks, idle);
    }
}

/// Chooses a new thread, first moving to the next domain if the current one's time is up.
fn scheduleChooseNewThread(ks: &mut KernelState)
    requires
        old(ks).wf(),
        old(ks).heads_runnable(),
    ensures
        final(ks).wf(),
        final(ks).node.ksCurThread == final(ks).node.ksIdleThread || !final(ks).queued(
            final(ks).node.ksCurThread as int,
        ),
        final(ks).node.ksSchedulerAction == old(ks).node.ksSchedulerAction,
        final(ks).node.ksIdleThread == old(ks).node.ksIdleThread,
        final(ks).chose_new_from(old(ks)),
{
    if ks.ksDomainTime == 0 {
        nextDomain(ks);
        proof {
            assert forall|p: int| #[trigger] is_highest_prio(ks, 0, p) implies is_runnable_spec(
                ks.tcbs@[ks.rq_of(0, p)[0] as int].tcbState.tsType,
            ) by {
                assert forall|q: int| ks.rq_of(0, q) == #[trigger] old(ks).rq_of(0, q) by {}
                assert(is_highest_prio(old(ks), 0, p));
            }
        }
    }
    chooseThread(ks);
}

/// Setting the scheduler action back gives the state before it was set.
proof fn lemma_with_action_back(pre: KernelState, fin: KernelState)
    requires
        fin == pre.with_action(SchedulerAction_ResumeCurrentThread),
    ensures
        fin.with_action(pre.node.ksSchedulerAction) == pre,
{
    assert(fin.with_action(pre.node.ksSchedulerAction).node == pre.node);
}

/// Readying the current thread keeps every queued thread runnable.
proof fn lemma_readied_queued_runnable(o: KernelState, k1: KernelState)
    requires
        o.wf(),
        o.queued_runnable(),
        k1.readied_current_from(&o),
    ensures
        k1.queued_runnable(),
{
    let c = o.node.ksCurThread as int;
    assert forall|t: int| 2 <= t < k1.tcbs.len() && #[trigger] k1.queued(t) implies is_runnable_spec(
        k1.tcbs@[t].tcbState.tsType,
    ) by {
        assert(strip_sched(k1.tcbs@[t]) == strip_sched(o.tcbs@[t]));
        if t != c {
            assert(o.queued(t));
        }
    }
}

/// Queueing a runnable candidate and requesting a new choice keeps every queued thread
/// runnable.
proof fn lemma_requeued_candidate_runnable(o: KernelState, k1: KernelState, k2: KernelState, k3: KernelState)
    requires
        o.wf(),
        o.queued_runnable(),
        o.valid_tcb(o.node.ksSchedulerAction as int),
        is_runnable_spec(o.tcbs@[o.node.ksSchedulerAction as int].tcbState.tsType),
        k1.readied_current_from(&o),
        k2.enqueued_from(&k1, o.node.ksSchedulerAction as int),
        k3 == k2.with_action(SchedulerAction_ChooseNewThread),
    ensures
        k3.queued_runnable(),
{
    let c = o.node.ksCurThread as int;
    let a = o.node.ksSchedulerAction as int;
    assert forall|t: int| 2 <= t < k3.tcbs.len() && #[trigger] k3.queued(t) implies is_runnable_spec(
        k3.tcbs@[t].tcbState.tsType,
    ) by {
        assert(k3.queued(t) == k2.queued(t));
        assert(strip_sched(k2.tcbs@[t]) == strip_sched(k1.tcbs@[t]));
        assert(strip_sched(k1.tcbs@[t]) == strip_sched(o.tcbs@[t]));
        if t != c && t != a {
            assert(k1.queued(t) == o.queued(t));
            assert(o.queued(t));
        }
    }
}

/// What `schedule` makes of a pending candidate thread, from `o`, via `k1` (`o` with its
/// current thread readied), to `f`: if the candidate does not beat the current thread (or the
/// idle thread runs) and a higher-priority thread is ready, or it only ties with a runnable
/// current thread, it is queued and a new thread is chosen; otherwise it is switched to.
pub open spec fn candidate_outcome(o: &KernelState, k1: &KernelState, f: &KernelState) -> bool {
    let t = o.node.ksSchedulerAction as int;
    let c = o.node.ksCurThread as int;
    let pt = o.tcbs@[t].tcbPriority;
    let pc = o.tcbs@[c].tcbPriority;
    let fastfail = c == o.node.ksIdleThread || pt < pc;
    let highest = forall|q: int| pt < q < CONFIG_NUM_PRIORITIES ==> #[trigger] k1.rq_of(k1.ksCurDomain as int, q).len() == 0;
    if (fastfail && !highest) || (is_runnable_spec(o.tcbs@[c].tcbState.tsType) && pt == pc) {
        exists|k2: KernelState|
            {
                &&& #[trigger] k2.enqueued_from(k1, t)
                &&& k2.same_sched_ptrs(k1)
                &&& f.with_action(SchedulerAction_ChooseNewThread).chose_new_from(
                    &k2.with_action(SchedulerAction_ChooseNewThread),
                )
            }
    } else {
        f.with_action(o.node.ksSchedulerAction).switched_from(k1, t)
    }
}

/// Carries out the pending scheduler action: with a new choice requested, the current
/// thread, if runnable, goes back to its ready queue and the highest-priority ready thread
/// runs; with a thread pending, it runs unless a higher-priority thread is ready or it only
/// ties with a still-runnable current thread, in which case it is queued and a new choice
/// is made. Afterwards the current thread is resumed.
#[verifier::spinoff_prover]
#[verifier::rlimit(60)]
pub fn schedule(ks: &mut KernelState)
    requires
        old(ks).wf(),
        old(ks).queued_runnable(),
        old(ks).valid_tcb(old(ks).node.ksSchedulerAction as int) ==> is_runnable_spec(
            old(ks).tcbs@[old(ks).node.ksSchedulerAction as int].tcbState.tsType,
        ),
    ensures
        final(ks).wf(),
        final(ks).node.ksSchedulerAction == SchedulerAction_ResumeCurrentThread,
        old(ks).node.ksSchedulerAction == SchedulerAction_ResumeCurrentThread ==> *final(ks) == *old(ks),
        old(ks).node.ksSchedulerAction != SchedulerAction_ResumeCurrentThread ==> (final(ks).node.ksCurThread
            == final(ks).node.ksIdleThread || !final(ks).queued(final(ks).node.ksCurThread as int)),
        old(ks).node.ksSchedulerAction != SchedulerAction_ResumeCurrentThread ==> (final(ks).node.ksCurThread
            == final(ks).node.ksIdleThread || is_runnable_spec(
            final(ks).tcbs@[final(ks).node.ksCurThread as int].tcbState.tsType,
        )),
        final(ks).node.ksIdleThread == old(ks).node.ksIdleThread,
        final(ks).same_threads(old(ks)),
        old(ks).node.ksSchedulerAction == SchedulerAction_ChooseNewThread ==> exists|k1: KernelState|
            {
                &&& #[trigger] k1.readied_current_from(old(ks))
                &&& final(ks).with_action(SchedulerAction_ChooseNewThread).chose_new_from(&k1)
            },
        old(ks).valid_tcb(old(ks).node.ksSchedulerAction as int) ==> exists|k1: KernelState|
            {
                &&& #[trigger] k1.readied_current_from(old(ks))
                &&& candidate_outcome(old(ks), &k1, final(ks))
            },
{
    let action = get_ks_scheduler_action(ks);
    let ghost mut k1: KernelState = *ks;
    let ghost mut k2: KernelState = *ks;
    if action != SchedulerAction_ResumeCurrentThread {
        let cur = get_currenct_thread(ks);
        let was_runnable: bool;
        if ks.tcbs[cur].is_runnable() {
            was_runnable = true;
            tcb_t::sched_enqueue(ks, cur);
        } else {
            was_runnable = false;
        }
        proof {
            k1 = *ks;
            lemma_readied_queued_runnable(*old(ks), k1);
        }
        if get_ks_scheduler_action(ks) == SchedulerAction_ChooseNewThread {
            proof {
                lemma_queued_heads_runnable(*ks);
            }
            scheduleChooseNewThread(ks);
        } else {
            let candidate = get_ks_scheduler_action(ks);
            proof {
                assert(strip_sched(ks.tcbs@[candidate as int]) == strip_sched(old(ks).tcbs@[candidate as int]));
                assert(strip_sched(ks.tcbs@[cur as int]) == strip_sched(old(ks).tcbs@[cur as int]));
            }
            let cur2 = get_currenct_thread(ks);
            let fastfail = cur2 == get_idle_thread(ks) || ks.tcbs[candidate].tcbPriority < ks.tcbs[cur2].tcbPriority;
            let cur_dom = ks.ksCurDomain;
            let cand_prio = ks.tcbs[candidate].tcbPriority;
            if fastfail && !ks.isHighestPrio(cur_dom, cand_prio) {
                tcb_t::sched_enqueue(ks, candidate);
                proof {
                    k2 = *ks;
                }
                set_ks_scheduler_action(ks, SchedulerAction_ChooseNewThread);
                proof {
                    lemma_requeued_candidate_runnable(*old(ks), k1, k2, *ks);
                    lemma_queued_heads_runnable(*ks);
                }
                scheduleChooseNewThread(ks);
            } else if was_runnable && cand_prio == ks.tcbs[cur2].tcbPriority {
                tcb_t::sched_append(ks, candidate);
                proof {
                    k2 = *ks;
                }
                set_ks_scheduler_action(ks, SchedulerAction_ChooseNewThread);
                proof {
                    lemma_requeued_candidate_runnable(*old(ks), k1, k2, *ks);
                    lemma_queued_heads_runnable(*ks);
                }
                scheduleChooseNewThread(ks);
            } else {
                tcb_t::switch_to_this(ks, candidate);
            }
        }
    }
    let ghost pre = *ks;
    set_ks_scheduler_action(ks, SchedulerAction_ResumeCurrentThread);
    proof {
        lemma_with_action_back(pre, *ks);
        if old(ks).node.ksSchedulerAction == SchedulerAction_ResumeCurrentThread {
            assert(*ks == old(ks).with_action(SchedulerAction_ResumeCurrentThread));
            assert(ks.node == old(ks).node);
        } else if old(ks).node.ksSchedulerAction == SchedulerAction_ChooseNewThread {
            assert(k1.readied_current_from(old(ks)));
            assert(pre.chose_new_from(&k1));
        } else {
            assert(k1.readied_current_from(old(ks)));
            assert(candidate_outcome(old(ks), &k1, ks));
        }
    }
}


/// The slots of thread `t` (at `self_ptr`) once it has a master reply capability: one is put
/// into its reply slot if that slot is empty.
pub open spec fn reply_master_slots(t: tcb_t, self_ptr: usize) -> Seq<cte_t> {
    if t.cspace@[tcbReply as int].capability == cap::null_cap {
        t.cspace@.update(
            tcbReply as int,
            cte_t {
                capability: cap::reply_cap { capReplyCanGrant: 1, capReplyMaster: 1, capTCBPtr: self_ptr as u64 },
                cteMDBNode: mdb_node_t { mdbNext: 0, mdbRevocable: 1, mdbFirstBadged: 1, mdbPrev: 0 },
            },
        )
    } else {
        t.cspace@
    }
}

impl KernelState {
    /// `self` is `o` with thread `t` replaced by `x`, the rest unchanged.
    pub open spec fn tcb_replaced_from(&self, o: &KernelState, t: int, x: tcb_t) -> bool {
        &&& self.tcbs@ == o.tcbs@.update(t, x)
        &&& self.node == o.node
        &&& self.ksCurDomain == o.ksCurDomain
        &&& self.ksDomainTime == o.ksDomainTime
        &&& self.ksDomScheduleIdx == o.ksDomScheduleIdx
        &&& self.ksWorkUnitsCompleted == o.ksWorkUnitsCompleted
        &&& self.ksDomSchedule@ == o.ksDomSchedule@
    }

    /// `self` is `o` with thread `t` given priority `prio`.
    pub open spec fn priority_set_from(&self, o: &KernelState, t: int, prio: usize) -> bool {
        self.tcb_replaced_from(o, t, tcb_t { tcbPriority: prio, ..o.tcbs@[t] })
    }

    /// `self` is `o` after thread `t` got priority `prio`: it left its ready queue, took the
    /// priority, and, if it can run, was either rescheduled (when current) or offered to the
    /// scheduler.
    pub open spec fn priority_changed_from(&self, o: &KernelState, t: int, prio: usize) -> bool {
        exists|k1: KernelState, k2: KernelState|
            #![trigger k1.dequeued_from(o, t), k2.priority_set_from(&k1, t, prio)]
            {
                &&& k1.dequeued_from(o, t)
                &&& k1.same_sched_ptrs(o)
                &&& k2.priority_set_from(&k1, t, prio)
                &&& !is_runnable_spec(o.tcbs@[t].tcbState.tsType) ==> *self == k2
                &&& is_runnable_spec(o.tcbs@[t].tcbState.tsType) && t == o.node.ksCurThread
                    ==> self.rescheduled_from(&k2)
                &&& is_runnable_spec(o.tcbs@[t].tcbState.tsType) && t != o.node.ksCurThread
                    ==> self.switch_offered_from(&k2, t)
            }
    }

    /// `self` is `o` with thread `t` moved to domain `dom`.
    pub open spec fn domain_set_from(&self, o: &KernelState, t: int, dom: usize) -> bool {
        self.tcb_replaced_from(o, t, tcb_t { domain: dom, ..o.tcbs@[t] })
    }

    /// `self` is `o` after thread `t` moved to domain `dom`: it leaves its ready queue, gets
    /// the domain, rejoins a ready queue if it can run, and a new choice is requested if it is
    /// the current thread.
    pub open spec fn domain_moved_from(&self, o: &KernelState, t: int, dom: usize) -> bool {
        exists|k1: KernelState, k2: KernelState, k3: KernelState|
            #![trigger k1.dequeued_from(o, t), k2.domain_set_from(&k1, t, dom), k3.same_sched_ptrs(&k2)]
            {
                &&& k1.dequeued_from(o, t)
                &&& k1.same_sched_ptrs(o)
                &&& k2.domain_set_from(&k1, t, dom)
                &&& k3.same_sched_ptrs(&k2)
                &&& is_runnable_spec(o.tcbs@[t].tcbState.tsType) ==> k3.enqueued_from(&k2, t)
                &&& !is_runnable_spec(o.tcbs@[t].tcbState.tsType) ==> k3 == k2
                &&& t == o.node.ksCurThread ==> self.rescheduled_from(&k3)
                &&& t != o.node.ksCurThread ==> *self == k3
            }
    }

    /// `self` is `o` with thread `t` put in state `st`, its register values kept, and a new
    /// choice requested if it was the current thread, nothing else pending, and it can no
    /// longer run.
    pub open spec fn state_set_from(&self, o: &KernelState, t: int, st: ThreadState) -> bool {
        &&& self.tcbs@ == o.tcbs@.update(t, self.tcbs@[t])
        &&& self.tcbs@[t] == (tcb_t {
            tcbArch: self.tcbs@[t].tcbArch,
            tcbState: crate::fault::thread_state_t { tsType: st, ..o.tcbs@[t].tcbState },
            ..o.tcbs@[t]
        })
        &&& self.tcbs@[t].tcbArch.registers@ == o.tcbs@[t].tcbArch.registers@
        &&& self.node == (if t == o.node.ksCurThread && o.node.ksSchedulerAction == SchedulerAction_ResumeCurrentThread
            && !is_runnable_spec(st) {
            SmpStateData { ksSchedulerAction: SchedulerAction_ChooseNewThread, ..o.node }
        } else {
            o.node
        })
        &&& self.ksCurDomain == o.ksCurDomain
        &&& self.ksDomainTime == o.ksDomainTime
        &&& self.ksDomScheduleIdx == o.ksDomScheduleIdx
        &&& self.ksWorkUnitsCompleted == o.ksWorkUnitsCompleted
        &&& self.ksDomSchedule@ == o.ksDomSchedule@
    }

    /// `self` is `o` with thread `t` given a master reply capability (if it had none) and put
    /// in the restart state.
    pub open spec fn restarted_from(&self, o: &KernelState, t: int) -> bool {
        &&& self.tcbs@ == o.tcbs@.update(t, self.tcbs@[t])
        &&& self.tcbs@[t] == (tcb_t {
            cspace: self.tcbs@[t].cspace,
            tcbState: crate::fault::thread_state_t {
                tsType: ThreadState::ThreadStateRestart,
                ..o.tcbs@[t].tcbState
            },
            ..o.tcbs@[t]
        })
        &&& self.tcbs@[t].cspace@ == reply_master_slots(o.tcbs@[t], t as usize)
        &&& self.node == o.node
        &&& self.ksCurDomain == o.ksCurDomain
        &&& self.ksDomainTime == o.ksDomainTime
        &&& self.ksDomScheduleIdx == o.ksDomScheduleIdx
        &&& self.ksWorkUnitsCompleted == o.ksWorkUnitsCompleted
        &&& self.ksDomSchedule@ == o.ksDomSchedule@
    }
}

impl tcb_t {
    /// Sets the priority of thread `tcb`: it leaves its ready queue, and if it can run it is
    /// either rescheduled (when current) or offered to the scheduler.
    pub fn set_priority(ks: &mut KernelState, tcb: usize, priority: usize)
        requires
            old(ks).wf(),
            old(ks).valid_tcb(tcb as int),
            priority < CONFIG_NUM_PRIORITIES,
        ensures
            final(ks).wf(),
            final(ks).tcbs@[tcb as int].tcbPriority == priority,
            strip_sched(final(ks).tcbs@[tcb as int]) == strip_sched(
                tcb_t { tcbPriority: priority, ..old(ks).tcbs@[tcb as int] },
            ),
            !is_runnable_spec(old(ks).tcbs@[tcb as int].tcbState.tsType) ==> {
                &&& !final(ks).queued(tcb as int)
                &&& final(ks).node.ksSchedulerAction == old(ks).node.ksSchedulerAction
            },
            is_runnable_spec(old(ks).tcbs@[tcb as int].tcbState.tsType) && tcb == old(ks).node.ksCurThread
                ==> final(ks).node.ksSchedulerAction == SchedulerAction_ChooseNewThread,
            is_runnable_spec(old(ks).tcbs@[tcb as int].tcbState.tsType) && tcb != old(ks).node.ksCurThread ==> (
            final(ks).queued(tcb as int) || final(ks).node.ksSchedulerAction == tcb),
            final(ks).node.ksCurThread == old(ks).node.ksCurThread,
            final(ks).ksCurDomain == old(ks).ksCurDomain,
            final(ks).priority_changed_from(old(ks), tcb as int, priority),
    {
        tcb_t::sched_dequeue(ks, tcb);
        let ghost k1 = *ks;
        ks.tcbs[tcb].tcbPriority = priority;
        proof {
            lemma_wf_tcb_update(k1, *ks, tcb as int);
            assert(strip_sched(k1.tcbs@[tcb as int]) == strip_sched(old(ks).tcbs@[tcb as int]));
        }
        let ghost k2 = *ks;
        proof {
            assert(k2.tcbs@ =~= k1.tcbs@.update(tcb as int, tcb_t { tcbPriority: priority, ..k1.tcbs@[tcb as int] }));
            assert(k2.priority_set_from(&k1, tcb as int, priority));
        }
        if ks.tcbs[tcb].is_runnable() {
            if tcb_t::is_current(ks, tcb) {
                rescheduleRequired(ks);
                proof {
                    let a = k2.node.ksSchedulerAction as int;
                    if k2.valid_tcb(a) {
                        assert(strip_sched(ks.tcbs@[tcb as int]) == strip_sched(k2.tcbs@[tcb as int]));
                    } else {
                        assert(strip_sched(ks.tcbs@[tcb as int]) == strip_sched(k2.tcbs@[tcb as int]));
                    }
                }
            } else {
                possible_switch_to(ks, tcb);
                proof {
                    if k2.ksCurDomain != k2.tcbs@[tcb as int].domain {
                        assert(strip_sched(ks.tcbs@[tcb as int]) == strip_sched(k2.tcbs@[tcb as int]));
                    } else if k2.node.ksSchedulerAction != SchedulerAction_ResumeCurrentThread {
                        let mid = choose|mid: KernelState|
                            {
                                &&& (k2.valid_tcb(k2.node.ksSchedulerAction as int) ==> mid.enqueued_from(
                                    &k2,
                                    k2.node.ksSchedulerAction as int,
                                ))
                                &&& (!k2.valid_tcb(k2.node.ksSchedulerAction as int) ==> mid.same_queues(&k2))
                                &&& #[trigger] ks.enqueued_from(&mid, tcb as int)
                            };
                        assert(strip_sched(mid.tcbs@[tcb as int]) == strip_sched(k2.tcbs@[tcb as int]));
                        assert(strip_sched(ks.tcbs@[tcb as int]) == strip_sched(mid.tcbs@[tcb as int]));
                    } else {
                    }
                }
            }
        }
    }

    /// Moves thread `tcb` to another domain: it leaves its ready queue, rejoins the queue of
    /// its new domain if it can run, and a new thread is chosen if it is current.
    pub fn set_domain(ks: &mut KernelState, tcb: usize, dom: usize)
        requires
            old(ks).wf(),
            old(ks).valid_tcb(tcb as int),
            dom < CONFIG_NUM_DOMAINS,
        ensures
            final(ks).wf(),
            final(ks).tcbs@[tcb as int].domain == dom,
            strip_sched(final(ks).tcbs@[tcb as int]) == strip_sched(tcb_t { domain: dom, ..old(ks).tcbs@[tcb as int] }),
            is_runnable_spec(old(ks).tcbs@[tcb as int].tcbState.tsType) ==> final(ks).queued(tcb as int),
            !is_runnable_spec(old(ks).tcbs@[tcb as int].tcbState.tsType) && tcb != old(ks).node.ksSchedulerAction
                ==> !final(ks).queued(tcb as int),
            tcb == old(ks).node.ksCurThread ==> final(ks).node.ksSchedulerAction == SchedulerAction_ChooseNewThread,
            tcb != old(ks).node.ksCurThread ==> final(ks).node.ksSchedulerAction == old(ks).node.ksSchedulerAction,
            final(ks).node.ksCurThread == old(ks).node.ksCurThread,
            final(ks).domain_moved_from(old(ks), tcb as int, dom),
    {
        tcb_t::sched_dequeue(ks, tcb);
        let ghost k1 = *ks;
        ks.tcbs[tcb].domain = dom;
        proof {
            lemma_wf_tcb_update(k1, *ks, tcb as int);
            assert(strip_sched(k1.tcbs@[tcb as int]) == strip_sched(old(ks).tcbs@[tcb as int]));
        }
        let ghost k2 = *ks;
        proof {
            assert(k2.tcbs@ =~= k1.tcbs@.update(tcb as int, tcb_t { domain: dom, ..k1.tcbs@[tcb as int] }));
            assert(k2.domain_set_from(&k1, tcb as int, dom));
        }
        if ks.tcbs[tcb].is_runnable() {
            tcb_t::sched_enqueue(ks, tcb);
        }
        let ghost k3 = *ks;
        proof {
            assert(k3.same_sched_ptrs(&k2));
        }
        if tcb_t::is_current(ks, tcb) {
            rescheduleRequired(ks);
            proof {
                let a = k3.node.ksSchedulerAction as int;
                if k3.valid_tcb(a) {
                    assert(ks.enqueued_from(&k3, a));
                } else {
                    assert(ks.same_queues(&k3));
                }
                assert(strip_sched(ks.tcbs@[tcb as int]) == strip_sched(k3.tcbs@[tcb as int]));
            }
        }
    }

    /// Gives thread `tcb` a master reply capability to itself if its reply slot is empty.
    pub fn setup_reply_master(&mut self, self_ptr: usize)
        requires
            old(self).wf(),
        ensures
            final(self).wf(),
            final(self).cspace@ == reply_master_slots(*old(self), self_ptr),
            *final(self) == (tcb_t { cspace: final(self).cspace, ..*old(self) }),
    {
        if self.cspace[crate::config::tcbReply].capability.get_tag() == 0 {
            let c = crate::cap::cte_t {
                capability: crate::cap::cap::reply_cap { capReplyCanGrant: 1, capReplyMaster: 1, capTCBPtr: self_ptr as u64 },
                cteMDBNode: crate::cap::mdb_node_t::new(0, 1, 1, 0),
            };
            self.cspace.set(crate::config::tcbReply, c);
        }
    }

    /// Stops thread `tcb`: it becomes inactive and leaves its ready queue.
    pub fn suspend(ks: &mut KernelState, tcb: usize)
        requires
            old(ks).wf(),
            old(ks).valid_tcb(tcb as int),
        ensures
            final(ks).wf(),
            final(ks).tcbs@[tcb as int].tcbState.tsType == ThreadState::ThreadStateInactive,
            !final(ks).queued(tcb as int),
            tcb == old(ks).node.ksCurThread && old(ks).node.ksSchedulerAction == SchedulerAction_ResumeCurrentThread
                ==> final(ks).node.ksSchedulerAction == SchedulerAction_ChooseNewThread,
            final(ks).node.ksCurThread == old(ks).node.ksCurThread,
            exists|k1: KernelState|
                {
                    &&& #[trigger] k1.state_set_from(old(ks), tcb as int, ThreadState::ThreadStateInactive)
                    &&& final(ks).dequeued_from(&k1, tcb as int)
                    &&& final(ks).same_sched_ptrs(&k1)
                },
    {
        if ks.tcbs[tcb].get_state() == ThreadState::ThreadStateRunning {
            let ip = ks.tcbs[tcb].tcbArch.get_register(ArchReg::FaultIP);
            ks.tcbs[tcb].tcbArch.set_register(ArchReg::FaultIP, ip);
            proof {
                assert(ks.tcbs@[tcb as int].tcbArch.registers@ =~= old(ks).tcbs@[tcb as int].tcbArch.registers@);
                lemma_wf_tcb_update(*old(ks), *ks, tcb as int);
            }
        }
        let ghost k0 = *ks;
        proof {
            assert(k0.tcbs@ == old(ks).tcbs@.update(tcb as int, k0.tcbs@[tcb as int]));
            assert(k0.tcbs@[tcb as int] == (tcb_t { tcbArch: k0.tcbs@[tcb as int].tcbArch, ..old(ks).tcbs@[tcb as int] }));
            assert(k0.tcbs@[tcb as int].tcbArch.registers@ == old(ks).tcbs@[tcb as int].tcbArch.registers@);
            assert(k0.node == old(ks).node);
        }
        set_thread_state(ks, tcb, ThreadState::ThreadStateInactive);
        let ghost k1 = *ks;
        proof {
            assert(k1.tcbs@ =~= old(ks).tcbs@.update(tcb as int, k1.tcbs@[tcb as int]));
            assert(k1.state_set_from(old(ks), tcb as int, ThreadState::ThreadStateInactive));
        }
        tcb_t::sched_dequeue(ks, tcb);
        proof {
            assert(strip_sched(ks.tcbs@[tcb as int]) == strip_sched(k1.tcbs@[tcb as int]));
        }
    }

    /// Restarts a stopped thread `tcb`: it gets a master reply capability if it has none,
    /// becomes restarting, joins its ready queue, and is offered to the scheduler.
    pub fn restart(ks: &mut KernelState, tcb: usize)
        requires
            old(ks).wf(),
            old(ks).valid_tcb(tcb as int),
        ensures
            final(ks).wf(),
            !crate::tcb::is_stopped_spec(old(ks).tcbs@[tcb as int].tcbState.tsType) ==> *final(ks) == *old(ks),
            crate::tcb::is_stopped_spec(old(ks).tcbs@[tcb as int].tcbState.tsType) ==> {
                &&& final(ks).tcbs@[tcb as int].tcbState.tsType == ThreadState::ThreadStateRestart
                &&& final(ks).queued(tcb as int)
                &&& exists|k1: KernelState, k2: KernelState|
                    {
                        &&& #[trigger] k1.restarted_from(old(ks), tcb as int)
                        &&& #[trigger] k2.enqueued_from(&k1, tcb as int)
                        &&& k2.same_sched_ptrs(&k1)
                        &&& final(ks).switch_offered_from(&k2, tcb as int)
                    }
            },
            final(ks).node.ksCurThread == old(ks).node.ksCurThread,
    {
        if ks.tcbs[tcb].is_stopped() {
            ks.tcbs[tcb].setup_reply_master(tcb);
            proof {
                lemma_wf_tcb_update(*old(ks), *ks, tcb as int);
            }
            let ghost k0 = *ks;
            proof {
                assert(k0.tcbs@ == old(ks).tcbs@.update(tcb as int, k0.tcbs@[tcb as int]));
                assert(k0.tcbs@[tcb as int] == (tcb_t { cspace: k0.tcbs@[tcb as int].cspace, ..old(ks).tcbs@[tcb as int] }));
            }
            set_thread_state(ks, tcb, ThreadState::ThreadStateRestart);
            let ghost k1 = *ks;
            proof {
                assert(k1.tcbs@ =~= old(ks).tcbs@.update(tcb as int, k1.tcbs@[tcb as int]));
                assert(k1.restarted_from(old(ks), tcb as int));
            }
            tcb_t::sched_enqueue(ks, tcb);
            let ghost k3 = *ks;
            possible_switch_to(ks, tcb);
            proof {
                if k3.ksCurDomain != k3.tcbs@[tcb as int].domain {
                } else if k3.node.ksSchedulerAction != SchedulerAction_ResumeCurrentThread {
                    let mid = choose|mid: KernelState|
                        {
                            &&& (k3.valid_tcb(k3.node.ksSchedulerAction as int) ==> mid.enqueued_from(
                                &k3,
                                k3.node.ksSchedulerAction as int,
                            ))
                            &&& (!k3.valid_tcb(k3.node.ksSchedulerAction as int) ==> mid.same_queues(&k3))
                            &&& #[trigger] ks.enqueued_from(&mid, tcb as int)
                        };
                    assert(strip_sched(mid.tcbs@[tcb as int]) == strip_sched(k3.tcbs@[tcb as int]));
                    assert(strip_sched(ks.tcbs@[tcb as int]) == strip_sched(mid.tcbs@[tcb as int]));
                } else {
                    assert(ks.tcbs == k3.tcbs);
                }
                assert(strip_sched(ks.tcbs@[tcb as int]) == strip_sched(k3.tcbs@[tcb as int]));
                assert(k3.enqueued_from(&k1, tcb as int));
            }
        }
    }
}


/// Putting a thread that is not queued into its ready queue and taking it out again gives
/// back every ready queue, both bitmaps and every queued flag, leaves the threads unchanged up to their
/// scheduling links, and gives every other thread back its scheduling links.
pub proof fn lemma_sched_enqueue_dequeue(k0: KernelState, k1: KernelState, k2: KernelState, t: int)
    requires
        k0.wf(),
        k0.valid_tcb(t),
        !k0.queued(t),
        k1.enqueued_from(&k0, t),
        k1.others_kept(&k0, k0.rq_of(k0.tcbs@[t].domain as int, k0.tcbs@[t].tcbPriority as int), t),
        k2.wf(),
        k2.dequeued_from(&k1, t),
        k2.others_kept(&k1, k1.rq_of(k1.tcbs@[t].domain as int, k1.tcbs@[t].tcbPriority as int), t),
    ensures
        k2.same_queues(&k0),
        k2.node.ksReadyQueuesL1Bitmap@ == k0.node.ksReadyQueuesL1Bitmap@,
        k2.node.ksReadyQueuesL2Bitmap@ == k0.node.ksReadyQueuesL2Bitmap@,
        forall|j: int| 0 < j < k2.tcbs.len() && j != t ==> same_sched_links(#[trigger] k2.tcbs@[j], k0.tcbs@[j]),
{
    let d = k0.tcbs@[t].domain as int;
    let p = k0.tcbs@[t].tcbPriority as int;
    assert(strip_sched(k1.tcbs@[t]) == strip_sched(k0.tcbs@[t]));
    assert(k1.tcbs@[t].domain == k0.tcbs@[t].domain);
    assert(k1.tcbs@[t].tcbPriority == k0.tcbs@[t].tcbPriority);
    let s = k0.rq_of(d, p);
    assert(!s.contains(t as usize));
    crate::tcb_queue::lemma_push_remove_value(s, t as usize);
    assert forall|j: int| 0 <= j < k2.tcbs.len() implies strip_sched(#[trigger] k2.tcbs@[j]) == strip_sched(
        k0.tcbs@[j],
    ) by {
        assert(strip_sched(k2.tcbs@[j]) == strip_sched(k1.tcbs@[j]));
        assert(strip_sched(k1.tcbs@[j]) == strip_sched(k0.tcbs@[j]));
    }
    assert forall|j: int| 0 <= j < k2.tcbs.len() implies #[trigger] k2.queued(j) == k0.queued(j) by {
        if j != t {
            assert(k2.queued(j) == k1.queued(j));
        }
    }
    assert forall|dd: int, pp: int|
        0 <= dd < CONFIG_NUM_DOMAINS && 0 <= pp < CONFIG_NUM_PRIORITIES implies #[trigger] k2.rq_of(dd, pp)
        == k0.rq_of(dd, pp) by {
        if dd != d || pp != p {
            assert(k2.rq_of(dd, pp) == k1.rq_of(dd, pp));
            assert(k1.rq_of(dd, pp) == k0.rq_of(dd, pp));
        }
    }
    assert(k2.rq_of(d, p) == s);
    lemma_bitmaps_determined(k2, k0);
    assert forall|j: int| 0 < j < k2.tcbs.len() && j != t implies same_sched_links(#[trigger] k2.tcbs@[j], k0.tcbs@[j]) by {
        if s.contains(j as usize) {
            let i = s.index_of(j as usize);
            assert(queue_wf(
                k0.node.ksReadyQueues@[rq_index(d, p)].head,
                k0.node.ksReadyQueues@[rq_index(d, p)].tail,
                k0.rq_of(d, p),
                k0.tcbs@,
                false,
            ));
            assert(queue_wf(
                k2.node.ksReadyQueues@[rq_index(d, p)].head,
                k2.node.ksReadyQueues@[rq_index(d, p)].tail,
                k2.rq_of(d, p),
                k2.tcbs@,
                false,
            ));
            assert(s[i] as int == j);
        } else {
            assert(!s.push(t as usize).contains(j as usize)) by {
                if s.push(t as usize).contains(j as usize) {
                    let i = s.push(t as usize).index_of(j as usize);
                    if i < s.len() {
                        assert(s[i] == j as usize);
                    }
                }
            }
            assert(k1.tcbs@[j] == k0.tcbs@[j]);
            assert(k2.tcbs@[j] == k1.tcbs@[j]);
        }
    }
}

/// Sets the pending scheduler action of this core.
pub fn set_current_scheduler_action(ks: &mut KernelState, action: usize)
    requires
        old(ks).wf(),
        action == SchedulerAction_ResumeCurrentThread || action == SchedulerAction_ChooseNewThread
            || old(ks).valid_tcb(action as int),
    ensures
        final(ks).wf(),
        *final(ks) == (KernelState {
            node: SmpStateData { ksSchedulerAction: action, ..old(ks).node },
            ..*old(ks)
        }),
{
    ks.node.ksSchedulerAction = action;
    proof {
        lemma_wf_pointers(*old(ks), *ks);
    }
}

/// Takes thread `tcb` out of its ready queue, if it is queued.
pub fn tcbSchedDequeue(ks: &mut KernelState, tcb: usize)
    requires
        old(ks).wf(),
        old(ks).valid_tcb(tcb as int),
    ensures
        final(ks).wf(),
        final(ks).dequeued_from(old(ks), tcb as int),
{
    tcb_t::sched_dequeue(ks, tcb);
}

/// Puts thread `tcb` at the tail of its ready queue, unless it is already queued.
pub fn tcbSchedAppend(ks: &mut KernelState, tcb: usize)
    requires
        old(ks).wf(),
        old(ks).valid_tcb(tcb as int),
    ensures
        final(ks).wf(),
        final(ks).enqueued_from(old(ks), tcb as int),
{
    tcb_t::sched_append(ks, tcb);
}

/// Gives thread `tcb` priority `prio`, moving it between ready queues as needed.
pub fn setPriority(ks: &mut KernelState, tcb: usize, prio: usize)
    requires
        old(ks).wf(),
        old(ks).valid_tcb(tcb as int),
        prio < CONFIG_NUM_PRIORITIES,
    ensures
        final(ks).wf(),
        final(ks).priority_changed_from(old(ks), tcb as int, prio),
{
    tcb_t::set_priority(ks, tcb, prio);
}

/// Gives thread `tcb` maximum controlled priority `prio`.
pub fn setMCPriority(ks: &mut KernelState, tcb: usize, prio: usize)
    requires
        old(ks).wf(),
        old(ks).valid_tcb(tcb as int),
    ensures
        final(ks).wf(),
        final(ks).tcb_replaced_from(old(ks), tcb as int, tcb_t { tcbMCP: prio, ..old(ks).tcbs@[tcb as int] }),
{
    ks.tcbs[tcb].set_mcp_priority(prio);
    proof {
        assert(ks.tcbs@ =~= old(ks).tcbs@.update(tcb as int, ks.tcbs@[tcb as int]));
        lemma_wf_tcb_update(*old(ks), *ks, tcb as int);
    }
}

/// Sets up the scheduler state of this core: `scheduler_action` is the pending action and the
/// idle thread becomes current.
pub fn init_core_state(ks: &mut KernelState, scheduler_action: usize)
    requires
        old(ks).wf(),
        scheduler_action == SchedulerAction_ResumeCurrentThread || scheduler_action
            == SchedulerAction_ChooseNewThread || old(ks).valid_tcb(scheduler_action as int),
    ensures
        final(ks).wf(),
        *final(ks) == (KernelState {
            node: SmpStateData {
                ksSchedulerAction: scheduler_action,
                ksCurThread: old(ks).node.ksIdleThread,
                ..old(ks).node
            },
            ..*old(ks)
        }),
{
    set_current_scheduler_action(ks, scheduler_action);
    let idle = get_idle_thread(ks);
    set_current_thread(ks, idle);
}

/// Two ways of putting thread `t` into its ready queue from the same state (such as
/// `sched_enqueue` and `sched_append`) give the same ready queues, bitmaps, queued flags and threads up
/// to their scheduling links, and the same scheduling links for every thread.
pub proof fn lemma_enqueue_same_state(k0: KernelState, k1: KernelState, k2: KernelState, t: int)
    requires
        k0.wf(),
        k0.valid_tcb(t),
        k1.wf(),
        k1.enqueued_from(&k0, t),
        k1.others_kept(&k0, k0.rq_of(k0.tcbs@[t].domain as int, k0.tcbs@[t].tcbPriority as int), t),
        k2.wf(),
        k2.enqueued_from(&k0, t),
        k2.others_kept(&k0, k0.rq_of(k0.tcbs@[t].domain as int, k0.tcbs@[t].tcbPriority as int), t),
    ensures
        k1.same_queues(&k2),
        k1.node.ksReadyQueuesL1Bitmap@ == k2.node.ksReadyQueuesL1Bitmap@,
        k1.node.ksReadyQueuesL2Bitmap@ == k2.node.ksReadyQueuesL2Bitmap@,
        forall|j: int| 0 < j < k1.tcbs.len() ==> same_sched_links(#[trigger] k1.tcbs@[j], k2.tcbs@[j]),
{
    let d = k0.tcbs@[t].domain as int;
    let p = k0.tcbs@[t].tcbPriority as int;
    let s = k0.rq_of(d, p);
    assert forall|j: int| 0 <= j < k1.tcbs.len() implies strip_sched(#[trigger] k1.tcbs@[j]) == strip_sched(
        k2.tcbs@[j],
    ) by {
        assert(strip_sched(k1.tcbs@[j]) == strip_sched(k0.tcbs@[j]));
        assert(strip_sched(k2.tcbs@[j]) == strip_sched(k0.tcbs@[j]));
    }
    assert forall|j: int| 0 <= j < k1.tcbs.len() implies #[trigger] k1.queued(j) == k2.queued(j) by {
        if j != t {
            assert(k1.queued(j) == k0.queued(j));
            assert(k2.queued(j) == k0.queued(j));
        }
    }
    assert forall|dd: int, pp: int|
        0 <= dd < CONFIG_NUM_DOMAINS && 0 <= pp < CONFIG_NUM_PRIORITIES implies #[trigger] k1.rq_of(dd, pp)
        == k2.rq_of(dd, pp) by {
        if dd != d || pp != p {
            assert(k1.rq_of(dd, pp) == k0.rq_of(dd, pp));
            assert(k2.rq_of(dd, pp) == k0.rq_of(dd, pp));
        }
    }
    let s1 = k1.rq_of(d, p);
    assert(k1.rq_of(d, p) == k2.rq_of(d, p));
    lemma_bitmaps_determined(k1, k2);
    assert forall|j: int| 0 < j < k1.tcbs.len() implies same_sched_links(#[trigger] k1.tcbs@[j], k2.tcbs@[j]) by {
        if s1.contains(j as usize) {
            let i = s1.index_of(j as usize);
            assert(queue_wf(
                k1.node.ksReadyQueues@[rq_index(d, p)].head,
                k1.node.ksReadyQueues@[rq_index(d, p)].tail,
                k1.rq_of(d, p),
                k1.tcbs@,
                false,
            ));
            assert(queue_wf(
                k2.node.ksReadyQueues@[rq_index(d, p)].head,
                k2.node.ksReadyQueues@[rq_index(d, p)].tail,
                k2.rq_of(d, p),
                k2.tcbs@,
                false,
            ));
            assert(s1[i] as int == j);
        } else {
            assert(j != t) by {
                if j == t {
                    if k0.queued(t) {
                        assert(k0.rq_of(d, p).contains(t as usize));
                    } else {
                        assert(s1[s.len() as int] == t as usize);
                    }
                }
            }
            assert(!s.contains(j as usize)) by {
                if s.contains(j as usize) {
                    let i = s.index_of(j as usize);
                    if k0.queued(t) {
                        assert(s1[i] == j as usize);
                    } else {
                        assert(s1[i] == j as usize);
                    }
                }
            }
            assert(k1.tcbs@[j] == k0.tcbs@[j]);
            assert(k2.tcbs@[j] == k0.tcbs@[j]);
        }
    }
}

/// Two well-formed states with the same ready queues have the same bitmaps: the bitmaps
/// record nothing but which queues are non-empty.
pub proof fn lemma_bitmaps_determined(a: KernelState, b: KernelState)
    requires
        a.wf(),
        b.wf(),
        forall|d: int, p: int|
            0 <= d < CONFIG_NUM_DOMAINS && 0 <= p < CONFIG_NUM_PRIORITIES ==> #[trigger] a.rq_of(d, p) == b.rq_of(d, p),
    ensures
        a.node.ksReadyQueuesL1Bitmap@ == b.node.ksReadyQueuesL1Bitmap@,
        a.node.ksReadyQueuesL2Bitmap@ == b.node.ksReadyQueuesL2Bitmap@,
{
    let l2a = a.node.ksReadyQueuesL2Bitmap@;
    let l2b = b.node.ksReadyQueuesL2Bitmap@;
    assert forall|w: int| 0 <= w < l2a.len() implies #[trigger] l2a[w] == l2b[w] by {
        let d = w / (L2_BITMAP_SIZE as int);
        let l = (L2_BITMAP_SIZE - 1) - w % (L2_BITMAP_SIZE as int);
        assert forall|bb: u64| bb < 64 implies #[trigger] bit_of(l2a[w], bb) == bit_of(l2b[w], bb) by {
            let p = l * 64 + bb;
            assert(l2_word(d, p) == w);
            assert(p % 64 == bb);
            assert(a.l2_bit(d, p) == b.l2_bit(d, p)) by {
                assert(a.rq_of(d, p) == b.rq_of(d, p));
            }
        }
        lemma_bits_equal(l2a[w], l2b[w]);
    }
    assert(l2a =~= l2b);
    let l1a = a.node.ksReadyQueuesL1Bitmap@;
    let l1b = b.node.ksReadyQueuesL1Bitmap@;
    assert forall|d: int| 0 <= d < l1a.len() implies #[trigger] l1a[d] == l1b[d] by {
        assert forall|bb: u64| bb < 64 implies #[trigger] bit_of(l1a[d], bb) == bit_of(l1b[d], bb) by {
            assert(a.l1_bit(d, bb as int) == b.l1_bit(d, bb as int));
        }
        lemma_bits_equal(l1a[d], l1b[d]);
    }
    assert(l1a =~= l1b);
}

impl KernelState {
    /// This state is `o` with its current thread activated: a restarting thread resumes at its
    /// fault address and runs; otherwise nothing changes.
    pub open spec fn activated_from(&self, o: &KernelState) -> bool {
        let c = o.node.ksCurThread as int;
        let t = o.tcbs@[c];
        if t.tcbState.tsType == ThreadState::ThreadStateRestart {
            &&& self.tcbs@[c].tcbArch.registers@ == t.tcbArch.registers@.update(
                crate::tcb::ELR_EL1 as int,
                t.tcbArch.registers@[crate::tcb::FaultIP_REG as int],
            )
            &&& self.tcbs@[c] == (tcb_t {
                tcbArch: self.tcbs@[c].tcbArch,
                tcbState: crate::fault::thread_state_t { tsType: ThreadState::ThreadStateRunning, ..t.tcbState },
                ..t
            })
            &&& self.tcbs@ == o.tcbs@.update(c, self.tcbs@[c])
            &&& *self == (KernelState { tcbs: self.tcbs, ..*o })
        } else {
            *self == *o
        }
    }

    /// This state is what carrying out the pending scheduler action of `o` gives, as
    /// `schedule` states it: nothing when the current thread is to resume; otherwise, with the
    /// current thread readied (back in its ready queue if it can run), a new choice of the
    /// highest-priority ready thread, or the outcome of the pending candidate
    /// (`candidate_outcome`). The current thread is then resumed.
    pub open spec fn scheduled_from(&self, o: &KernelState) -> bool {
        &&& self.node.ksSchedulerAction == SchedulerAction_ResumeCurrentThread
        &&& o.node.ksSchedulerAction == SchedulerAction_ResumeCurrentThread ==> *self == *o
        &&& o.node.ksSchedulerAction != SchedulerAction_ResumeCurrentThread ==> (self.node.ksCurThread
            == self.node.ksIdleThread || !self.queued(self.node.ksCurThread as int))
        &&& o.node.ksSchedulerAction != SchedulerAction_ResumeCurrentThread ==> (self.node.ksCurThread
            == self.node.ksIdleThread || is_runnable_spec(self.tcbs@[self.node.ksCurThread as int].tcbState.tsType))
        &&& self.node.ksIdleThread == o.node.ksIdleThread
        &&& self.same_threads(o)
        &&& o.node.ksSchedulerAction == SchedulerAction_ChooseNewThread ==> exists|k1: KernelState|
            {
                &&& #[trigger] k1.readied_current_from(o)
                &&& self.with_action(SchedulerAction_ChooseNewThread).chose_new_from(&k1)
            }
        &&& o.valid_tcb(o.node.ksSchedulerAction as int) ==> exists|k1: KernelState|
            {
                &&& #[trigger] k1.readied_current_from(o)
                &&& candidate_outcome(o, &k1, self)
            }
    }
}
} // verus!
