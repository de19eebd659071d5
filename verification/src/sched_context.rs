//! Scheduling contexts and their circular queue of budget refills.
use vstd::prelude::*;
use crate::arch_aarch64::{
    ticks_t, time_t, getKernelWcetUs, getKernelWcetTicks, getMaxUsToTicks, getMaxTicksToUs,
    ticksToUs, usToTicks, ticks_to_us_spec, us_to_ticks_spec, getMaxTicksToUs_spec,
};
use crate::config::{UINT64_MAX, CONFIG_KERNEL_WCET_SCALE};
use crate::message_info::seL4_MessageInfo_t;
use crate::notification::notification_t;
use crate::scheduler::{KernelState, get_currenct_thread, lemma_wf_tcb_update};
use crate::tcb::{ArchReg, same_but_mrs};

verus! {

/// Number of refills a scheduling context starts with.
pub const MIN_REFILLS: usize = 2;
/// Size, in bytes, of a scheduling context header.
pub const SCHED_CONTEXT_SIZE: usize = 96;
/// Size, in bytes, of a refill.
pub const REFILL_SIZE: usize = 16;

/// A budget refill: `rAmount` ticks become available at time `rTime`.
#[derive(Debug, Clone, Copy, PartialEq, Eq, Structural)]
pub struct refill {
    pub rTime: ticks_t,
    pub rAmount: ticks_t,
}

/// A scheduling-context capability, by its size.
#[derive(Debug, Clone, Copy, PartialEq, Eq, Structural)]
pub struct cap_sched_context_cap {
    pub capSCPtr: u64,
    pub capSCSizeBits: u64,
}

/// A scheduling context. `refills` is the refill array that follows the object in memory;
/// the live refills are the ring from `scRefillHead` to `scRefillTail` over its first
/// `scRefillMax` entries.
#[derive(Debug, Clone)]
pub struct sched_context {
    pub scPeriod: ticks_t,
    pub scConsumed: ticks_t,
    pub scCore: usize,
    pub scTcb: usize,
    pub scReply: usize,
    pub scNotification: usize,
    pub scBadge: usize,
    pub scYieldFrom: usize,
    pub scRefillMax: usize,
    pub scRefillHead: usize,
    pub scRefillTail: usize,
    pub scSporadic: bool,
    pub refills: Vec<refill>,
}

/// Smallest budget, in microseconds.
pub fn MIN_BUDGET_US() -> (r: time_t)
    ensures
        r == 20,
{
    2 * getKernelWcetUs() * CONFIG_KERNEL_WCET_SCALE
}

/// Smallest budget, in ticks.
pub open spec fn min_budget() -> u64 {
    1250
}

/// Smallest budget, in ticks.
pub fn MIN_BUDGET() -> (r: time_t)
    ensures
        r == min_budget(),
        r == 2 * us_to_ticks_spec(10) * CONFIG_KERNEL_WCET_SCALE,
{
    2 * getKernelWcetTicks() * CONFIG_KERNEL_WCET_SCALE
}

/// Longest period, in microseconds.
pub open spec fn max_period_us() -> u64 {
    36893488147419
}

/// Longest period, in microseconds.
pub fn MAX_PERIOD_US() -> (r: time_t)
    ensures
        r == max_period_us(),
        r == (UINT64_MAX / 62500) / 8,
{
    getMaxUsToTicks() / 8
}

/// Longest period, in ticks.
pub open spec fn max_period_ticks() -> u64 {
    2305843009213687
}

/// Latest release time a refill may have.
pub open spec fn max_release_time() -> u64 {
    18435214858663483180
}

/// Latest release time a refill may have: five longest periods before the end of time.
pub fn MAX_RELEASE_TIME() -> (r: time_t)
    ensures
        r == max_release_time(),
        r == UINT64_MAX - 5 * max_period_ticks(),
        max_period_ticks() == us_to_ticks_spec(36893488147419),
{
    let p = usToTicks(MAX_PERIOD_US());
    assert(p == max_period_ticks());
    UINT64_MAX - 5 * p
}

/// The largest number of refills that fit in a scheduling context of the capability's size:
/// what is left of the object after its header, in refills.
pub open spec fn refill_absolute_max_spec(sc_cap: cap_sched_context_cap) -> int {
    ((1u64 << sc_cap.capSCSizeBits) - 96int) / 16int
}

/// The largest number of refills that fit in a scheduling context of the capability's size.
pub fn refill_absolute_max(sc_cap: &cap_sched_context_cap) -> (r: usize)
    requires
        7 <= sc_cap.capSCSizeBits < 64,
        refill_absolute_max_spec(*sc_cap) <= usize::MAX,
    ensures
        r == refill_absolute_max_spec(*sc_cap),
        r >= MIN_REFILLS,
{
    let bits = sc_cap.capSCSizeBits;
    assert(128 <= (1u64 << bits)) by (bit_vector)
        requires 7 <= bits < 64;
    let r = ((1u64 << bits) - SCHED_CONTEXT_SIZE as u64) / REFILL_SIZE as u64;
    r as usize
}

/// The refills of a fresh ring: all of `budget` released at `cur_time`, followed by an empty
/// refill when there is no period.
pub open spec fn refill_new_view(budget: ticks_t, period: ticks_t, cur_time: ticks_t) -> Seq<refill> {
    if period == 0 {
        seq![refill { rTime: cur_time, rAmount: budget }, refill { rTime: cur_time, rAmount: 0 }]
    } else {
        seq![refill { rTime: cur_time, rAmount: budget }]
    }
}

/// The refills after a change of budget and period, from the head refill `h`: released at
/// `cur_time` if `h` already was (within the timer's precision), and trimmed to the new budget,
/// or with the missing budget released one period later.
pub open spec fn refill_update_view(h: refill, new_period: ticks_t, new_budget: ticks_t, cur_time: ticks_t) -> Seq<refill> {
    let t = if h.rTime <= cur_time + 625 { cur_time } else { h.rTime };
    if h.rAmount >= new_budget {
        if new_period == 0 {
            seq![refill { rTime: t, rAmount: new_budget }, refill { rTime: t, rAmount: 0 }]
        } else {
            seq![refill { rTime: t, rAmount: new_budget }]
        }
    } else {
        seq![
            refill { rTime: t, rAmount: h.rAmount },
            refill { rTime: (t + new_period) as u64, rAmount: (new_budget - h.rAmount) as u64 },
        ]
    }
}

/// Sum of the budgets of a sequence of refills.
pub open spec fn refills_sum(s: Seq<refill>) -> int
    decreases s.len(),
{
    if s.len() == 0 {
        0
    } else {
        refills_sum(s.drop_last()) + s.last().rAmount
    }
}

/// Each refill ends no later than the next one starts.
pub open spec fn refills_ordered(s: Seq<refill>) -> bool {
    forall|i: int| 0 <= i < s.len() - 1 ==> #[trigger] s[i].rTime + s[i].rAmount <= s[i + 1].rTime
}

/// Every refill is released no later than `b`.
pub open spec fn refills_starts_below(s: Seq<refill>, b: u64) -> bool {
    forall|i: int| 0 <= i < s.len() ==> #[trigger] s[i].rTime <= b
}

/// Every refill carries some budget.
pub open spec fn refills_positive(s: Seq<refill>) -> bool {
    forall|i: int| 0 <= i < s.len() ==> #[trigger] s[i].rAmount > 0
}

pub proof fn lemma_refills_sum_push(s: Seq<refill>, r: refill)
    ensures
        refills_sum(s.push(r)) == refills_sum(s) + r.rAmount,
{
    assert(s.push(r).drop_last() =~= s);
}

pub proof fn lemma_refills_sum_nonneg(s: Seq<refill>)
    ensures
        refills_sum(s) >= 0,
    decreases s.len(),
{
    if s.len() > 0 {
        lemma_refills_sum_nonneg(s.drop_last());
    }
}

pub proof fn lemma_refills_sum_drop_first(s: Seq<refill>)
    requires
        s.len() > 0,
    ensures
        refills_sum(s) == s[0].rAmount + refills_sum(s.drop_first()),
    decreases s.len(),
{
    if s.len() > 1 {
        lemma_refills_sum_drop_first(s.drop_last());
        assert(s.drop_last().drop_first() =~= s.drop_first().drop_last());
        assert(s.drop_first().last() == s.last());
        assert(refills_sum(s.drop_first()) == refills_sum(s.drop_first().drop_last())
            + s.drop_first().last().rAmount);
    } else {
        assert(refills_sum(s.drop_first()) == 0);
        assert(refills_sum(s.drop_last()) == 0);
    }
}

pub proof fn lemma_refills_sum_update(s: Seq<refill>, i: int, r: refill)
    requires
        0 <= i < s.len(),
    ensures
        refills_sum(s.update(i, r)) == refills_sum(s) - s[i].rAmount + r.rAmount,
    decreases s.len(),
{
    if i == s.len() - 1 {
        assert(s.update(i, r).drop_last() =~= s.drop_last());
    } else {
        lemma_refills_sum_update(s.drop_last(), i, r);
        assert(s.update(i, r).drop_last() =~= s.drop_last().update(i, r));
    }
}

/// Every refill's budget is at most the total.
pub proof fn lemma_refills_sum_bound(s: Seq<refill>, i: int)
    requires
        0 <= i < s.len(),
    ensures
        s[i].rAmount <= refills_sum(s),
    decreases s.len(),
{
    lemma_refills_sum_nonneg(s.drop_last());
    if i < s.len() - 1 {
        lemma_refills_sum_bound(s.drop_last(), i);
    }
}

/// Merges the head refill, released at `t`, with each following refill that starts before
/// the head's budget would run out.
pub open spec fn merge_heads(s: Seq<refill>, t: u64) -> Seq<refill>
    decreases s.len(),
{
    if s.len() > 1 && s[1].rTime <= t + s[0].rAmount {
        merge_heads(
            seq![refill { rTime: t, rAmount: (s[0].rAmount + s[1].rAmount) as u64 }] + s.subrange(2, s.len() as int),
            t,
        )
    } else {
        s
    }
}

pub proof fn lemma_merge_heads_sum(s: Seq<refill>, t: u64)
    requires
        refills_sum(s) <= UINT64_MAX,
    ensures
        refills_sum(merge_heads(s, t)) == refills_sum(s),
    decreases s.len(),
{
    if s.len() > 1 && s[1].rTime <= t + s[0].rAmount {
        let m = refill { rTime: t, rAmount: (s[0].rAmount + s[1].rAmount) as u64 };
        let n = seq![m] + s.subrange(2, s.len() as int);
        lemma_refills_sum_drop_first(s);
        lemma_refills_sum_drop_first(s.drop_first());
        lemma_refills_sum_nonneg(s.drop_first().drop_first());
        lemma_refills_sum_drop_first(n);
        assert(n.drop_first() =~= s.drop_first().drop_first());
        assert(s[0].rAmount + s[1].rAmount <= UINT64_MAX);
        lemma_merge_heads_sum(n, t);
    }
}

impl sched_context {
    /// The ring holds at least one refill and its indices are in range.
    pub open spec fn refills_wf(&self) -> bool {
        &&& 0 < self.scRefillMax <= self.refills.len()
        &&& self.scRefillHead < self.scRefillMax
        &&& self.scRefillTail < self.scRefillMax
    }

    /// Number of live refills.
    pub open spec fn refill_count(&self) -> nat {
        if self.scRefillHead <= self.scRefillTail {
            (self.scRefillTail - self.scRefillHead + 1) as nat
        } else {
            (self.scRefillTail + 1 + self.scRefillMax - self.scRefillHead) as nat
        }
    }

    /// Position in `refills` of the `i`-th live refill.
    pub open spec fn ring_index(&self, i: int) -> int {
        if self.scRefillHead + i < self.scRefillMax {
            self.scRefillHead + i
        } else {
            self.scRefillHead + i - self.scRefillMax
        }
    }

    /// The live refills, from head to tail.
    pub open spec fn refills_view(&self) -> Seq<refill> {
        Seq::new(self.refill_count(), |i: int| self.refills[self.ring_index(i)])
    }

    /// Whether the context has budget configured.
    pub fn sc_active(&self) -> (r: bool)
        ensures
            r == (self.scRefillMax > 0),
    {
        self.scRefillMax > 0
    }

    /// Whether the context is round robin (has no period).
    pub fn is_round_robin(&self) -> (r: bool)
        ensures
            r == (self.scPeriod == 0),
    {
        self.scPeriod == 0
    }

    /// Whether the context is active and sporadic.
    pub fn sc_sporadic(&self) -> (r: bool)
        ensures
            r == (self.scRefillMax > 0 && self.scSporadic),
    {
        self.sc_active() && self.scSporadic
    }

    /// Whether the context replenishes at a constant bandwidth (is not sporadic).
    pub fn sc_constant_bandwidth(&mut self) -> (r: bool)
        ensures
            r == !old(self).scSporadic,
            *final(self) == *old(self),
    {
        !self.scSporadic
    }

    /// Index that follows `index` in the ring.
    pub fn refill_next(&self, index: usize) -> (r: usize)
        requires
            index < self.scRefillMax,
        ensures
            r == if index == self.scRefillMax - 1 { 0 } else { index + 1 },
    {
        if index == self.scRefillMax - 1 {
            0
        } else {
            index + 1
        }
    }

    /// The refill stored at `index`.
    pub fn refill_index(&self, index: usize) -> (r: refill)
        requires
            index < self.refills.len(),
        ensures
            r == self.refills[index as int],
    {
        self.refills[index]
    }

    /// The first live refill.
    pub fn refill_head(&self) -> (r: refill)
        requires
            self.refills_wf(),
        ensures
            r == self.refills_view()[0],
    {
        self.refills[self.scRefillHead]
    }

    /// The last live refill.
    pub fn refill_tail(&self) -> (r: refill)
        requires
            self.refills_wf(),
        ensures
            r == self.refills_view().last(),
    {
        self.refills[self.scRefillTail]
    }

    /// Number of live refills.
    pub fn refill_size(&mut self) -> (r: usize)
        requires
            old(self).refills_wf(),
        ensures
            r == old(self).refill_count(),
            r == old(self).refills_view().len(),
            1 <= r <= old(self).scRefillMax,
            *final(self) == *old(self),
    {
        if self.scRefillHead <= self.scRefillTail {
            return self.scRefillTail - self.scRefillHead + 1;
        }
        return self.scRefillTail + 1 + (self.scRefillMax - self.scRefillHead);
    }

    /// Whether the ring is full.
    pub fn refill_full(&mut self) -> (r: bool)
        requires
            old(self).refills_wf(),
        ensures
            r == (old(self).refill_count() == old(self).scRefillMax),
            *final(self) == *old(self),
    {
        self.refill_size() == self.scRefillMax
    }

    /// Whether exactly one refill is live.
    pub fn refill_single(&mut self) -> (r: bool)
        requires
            old(self).refills_wf(),
        ensures
            r == (old(self).refill_count() == 1),
            *final(self) == *old(self),
    {
        self.scRefillHead == self.scRefillTail
    }

    /// Writes the first live refill.
    fn set_refill_head(&mut self, r: refill)
        requires
            old(self).refills_wf(),
        ensures
            final(self).refills_wf(),
            final(self).refills_view() == old(self).refills_view().update(0, r),
            final(self).scRefillMax == old(self).scRefillMax,
            final(self).scRefillHead == old(self).scRefillHead,
            final(self).scRefillTail == old(self).scRefillTail,
            final(self).scPeriod == old(self).scPeriod,
            final(self).refills.len() == old(self).refills.len(),
            final(self).same_binding(old(self)),
    {
        let h = self.scRefillHead;
        self.refills.set(h, r);
        assert(final(self).refills_view() =~= old(self).refills_view().update(0, r));
    }

    /// Writes the last live refill.
    fn set_refill_tail(&mut self, r: refill)
        requires
            old(self).refills_wf(),
        ensures
            final(self).refills_wf(),
            final(self).refills_view() == old(self).refills_view().update(
                old(self).refills_view().len() - 1,
                r,
            ),
            final(self).scRefillMax == old(self).scRefillMax,
            final(self).scRefillHead == old(self).scRefillHead,
            final(self).scRefillTail == old(self).scRefillTail,
            final(self).scPeriod == old(self).scPeriod,
            final(self).refills.len() == old(self).refills.len(),
            final(self).same_binding(old(self)),
    {
        let t = self.scRefillTail;
        self.refills.set(t, r);
        assert(final(self).refills_view() =~= old(self).refills_view().update(
            old(self).refills_view().len() - 1,
            r,
        ));
    }

    /// Appends a refill after the tail.
    pub fn refill_add_tail(&mut self, rTime: ticks_t, rAmount: ticks_t)
        requires
            old(self).refills_wf(),
            old(self).refill_count() < old(self).scRefillMax,
        ensures
            final(self).refills_wf(),
            final(self).refills_view() == old(self).refills_view().push(
                refill { rTime: rTime, rAmount: rAmount },
            ),
            final(self).scRefillMax == old(self).scRefillMax,
            final(self).scRefillHead == old(self).scRefillHead,
            final(self).scRefillTail == if old(self).scRefillTail + 1 < old(self).scRefillMax {
                (old(self).scRefillTail + 1) as usize
            } else {
                0usize
            },
            final(self).scPeriod == old(self).scPeriod,
            final(self).refills.len() == old(self).refills.len(),
            final(self).same_binding(old(self)),
    {
        let new_tail = self.refill_next(self.scRefillTail);
        self.scRefillTail = new_tail;
        self.refills.set(new_tail, refill { rTime: rTime, rAmount: rAmount });
        assert(final(self).refills_view() =~= old(self).refills_view().push(
            refill { rTime: rTime, rAmount: rAmount },
        ));
    }

    /// Removes and returns the head refill.
    fn refill_pop_head(&mut self) -> (r: refill)
        requires
            old(self).refills_wf(),
            old(self).refill_count() > 1,
        ensures
            final(self).refills_wf(),
            r == old(self).refills_view()[0],
            final(self).refills_view() == old(self).refills_view().drop_first(),
            final(self).scRefillMax == old(self).scRefillMax,
            final(self).scRefillTail == old(self).scRefillTail,
            final(self).scPeriod == old(self).scPeriod,
            final(self).refills == old(self).refills,
            final(self).same_binding(old(self)),
    {
        let res = self.refill_head();
        let h = self.scRefillHead;
        self.scRefillHead = self.refill_next(h);
        assert(final(self).refills_view() =~= old(self).refills_view().drop_first());
        res
    }

    /// The fields other than the refill ring and its period are those of `other`.
    pub open spec fn same_binding(&self, other: &sched_context) -> bool {
        &&& self.scConsumed == other.scConsumed
        &&& self.scCore == other.scCore
        &&& self.scTcb == other.scTcb
        &&& self.scReply == other.scReply
        &&& self.scNotification == other.scNotification
        &&& self.scBadge == other.scBadge
        &&& self.scYieldFrom == other.scYieldFrom
        &&& self.scSporadic == other.scSporadic
        &&& self.refills.len() == other.refills.len()
    }

    /// Budget left in the head refill after `usage` ticks, or 0 if `usage` exceeds it.
    pub fn refill_capacity(&mut self, usage: ticks_t) -> (r: ticks_t)
        requires
            old(self).refills_wf(),
        ensures
            r == if usage > old(self).refills_view()[0].rAmount { 0 } else {
                old(self).refills_view()[0].rAmount - usage
            },
            *final(self) == *old(self),
    {
        let head = self.refill_head();
        if usage > head.rAmount {
            return 0;
        }
        head.rAmount - usage
    }

    /// Whether the head refill keeps at least the minimum budget after `usage` ticks.
    pub fn refill_sufficient(&mut self, usage: ticks_t) -> (r: bool)
        requires
            old(self).refills_wf(),
        ensures
            r == (usage <= old(self).refills_view()[0].rAmount && old(self).refills_view()[0].rAmount
                - usage >= min_budget()),
            *final(self) == *old(self),
    {
        self.refill_capacity(usage) >= MIN_BUDGET()
    }

    /// Whether the head refill is released at `cur_time`, allowing for one kernel entry.
    pub fn refill_ready(&mut self, cur_time: ticks_t) -> (r: bool)
        requires
            old(self).refills_wf(),
            cur_time + 625 <= UINT64_MAX,
        ensures
            r == (old(self).refills_view()[0].rTime <= cur_time + 625),
            *final(self) == *old(self),
    {
        self.refill_head().rTime <= cur_time + getKernelWcetTicks()
    }

    /// Whether the context is active and its head refill is released at `cur_time`.
    pub fn sc_released(&mut self, cur_time: ticks_t) -> (r: bool)
        requires
            old(self).scRefillMax > 0 ==> old(self).refills_wf(),
            old(self).scRefillMax > 0 ==> old(self).refills_view()[0].rAmount >= min_budget(),
            cur_time + 625 <= UINT64_MAX,
        ensures
            r == (old(self).scRefillMax > 0 && old(self).refills_view()[0].rTime <= cur_time + 625),
            *final(self) == *old(self),
    {
        if self.sc_active() {
            let ok = self.refill_sufficient(0);
            assert(ok);
            self.refill_ready(cur_time)
        } else {
            false
        }
    }

    /// For a round-robin context, appends an empty refill released with the head.
    pub fn maybe_add_empty_tail(&mut self)
        requires
            old(self).refills_wf(),
            old(self).scPeriod == 0 ==> old(self).refill_count() < old(self).scRefillMax,
        ensures
            final(self).refills_wf(),
            final(self).refills_view() == if old(self).scPeriod == 0 {
                old(self).refills_view().push(
                    refill { rTime: old(self).refills_view()[0].rTime, rAmount: 0 },
                )
            } else {
                old(self).refills_view()
            },
            final(self).scRefillMax == old(self).scRefillMax,
            final(self).scPeriod == old(self).scPeriod,
            final(self).scRefillHead == old(self).scRefillHead,
            old(self).scPeriod != 0 ==> final(self).scRefillTail == old(self).scRefillTail,
            old(self).scPeriod == 0 ==> final(self).scRefillTail == if old(self).scRefillTail + 1
                < old(self).scRefillMax {
                (old(self).scRefillTail + 1) as usize
            } else {
                0usize
            },
            final(self).same_binding(old(self)),
    {
        if self.is_round_robin() {
            let t = self.refill_head().rTime;
            self.refill_add_tail(t, 0);
        }
    }

    /// Starts a fresh ring of at most `max_refills` refills with `budget` released at `cur_time`.
    pub fn refill_new(&mut self, max_refills: usize, budget: ticks_t, period: ticks_t, cur_time: ticks_t)
        requires
            1 <= max_refills <= old(self).refills.len(),
            period == 0 ==> max_refills >= MIN_REFILLS,
            budget >= min_budget(),
        ensures
            final(self).refills_wf(),
            final(self).scPeriod == period,
            final(self).scRefillMax == max_refills,
            final(self).scRefillHead == 0,
            final(self).scRefillTail == if period == 0 { 1usize } else { 0usize },
            final(self).refills_view() == refill_new_view(budget, period, cur_time),
            final(self).same_binding(old(self)),
    {
        self.scPeriod = period;
        self.scRefillHead = 0;
        self.scRefillTail = 0;
        self.scRefillMax = max_refills;
        self.refills.set(0, refill { rTime: cur_time, rAmount: budget });
        assert(self.refills_view() =~= seq![refill { rTime: cur_time, rAmount: budget }]);
        self.maybe_add_empty_tail();
    }

    /// Whether the head refill overlaps the next one, so the two can be merged.
    pub fn refill_head_overlapping(&mut self) -> (r: bool)
        requires
            old(self).refills_wf(),
            old(self).refills_view()[0].rTime + old(self).refills_view()[0].rAmount <= UINT64_MAX,
        ensures
            r == (old(self).refill_count() > 1 && old(self).refills_view()[1].rTime
                <= old(self).refills_view()[0].rTime + old(self).refills_view()[0].rAmount),
            *final(self) == *old(self),
    {
        if !self.refill_single() {
            let head = self.refill_head();
            let tail = head.rTime + head.rAmount;
            let next = self.refill_next(self.scRefillHead);
            return self.refill_index(next).rTime <= tail;
        } else {
            return false;
        }
    }

    /// When a sporadic context wakes with its head refill released, moves the head to
    /// `cur_time` and merges it with the refills it now overlaps. Returns whether the head
    /// was moved, which requires the timer to be reprogrammed.
    pub fn refill_unblock_check(&mut self, cur_time: ticks_t) -> (reprogram: bool)
        requires
            old(self).refills_wf(),
            cur_time + 625 <= UINT64_MAX,
            cur_time + refills_sum(old(self).refills_view()) <= UINT64_MAX,
        ensures
            final(self).refills_wf(),
            reprogram == (old(self).scPeriod != 0 && old(self).refills_view()[0].rTime <= cur_time + 625),
            final(self).refills_view() == if reprogram {
                merge_heads(
                    old(self).refills_view().update(
                        0,
                        refill { rTime: cur_time, rAmount: old(self).refills_view()[0].rAmount },
                    ),
                    cur_time,
                )
            } else {
                old(self).refills_view()
            },
            refills_sum(final(self).refills_view()) == refills_sum(old(self).refills_view()),
            final(self).scRefillMax == old(self).scRefillMax,
            final(self).scPeriod == old(self).scPeriod,
            final(self).same_binding(old(self)),
    {
        if self.is_round_robin() {
            return false;
        }
        if self.refill_ready(cur_time) {
            let h = self.refill_head();
            self.set_refill_head(refill { rTime: cur_time, rAmount: h.rAmount });
            proof {
                lemma_refills_sum_update(old(self).refills_view(), 0, self.refills_view()[0]);
                lemma_refills_sum_nonneg(old(self).refills_view());
                lemma_merge_heads_sum(self.refills_view(), cur_time);
            }
            let ghost target = merge_heads(self.refills_view(), cur_time);
            let ghost total = refills_sum(old(self).refills_view());
            loop
                invariant
                    self.refills_wf(),
                    self.refills_view()[0].rTime == cur_time,
                    merge_heads(self.refills_view(), cur_time) == target,
                    refills_sum(self.refills_view()) == total,
                    cur_time + total <= UINT64_MAX,
                    self.scRefillMax == old(self).scRefillMax,
                    self.scPeriod == old(self).scPeriod,
                    self.same_binding(old(self)),
                ensures
                    self.refills_wf(),
                    self.refills_view() == target,
                    refills_sum(self.refills_view()) == total,
                    self.scRefillMax == old(self).scRefillMax,
                    self.scPeriod == old(self).scPeriod,
                    self.same_binding(old(self)),
                decreases self.refill_count(),
            {
                proof {
                    lemma_refills_sum_bound(self.refills_view(), 0);
                }
                if !self.refill_head_overlapping() {
                    break;
                }
                let ghost v = self.refills_view();
                let old_head = self.refill_pop_head();
                let cur = self.refill_head();
                proof {
                    lemma_refills_sum_drop_first(v);
                    lemma_refills_sum_drop_first(v.drop_first());
                    lemma_refills_sum_nonneg(v.drop_first().drop_first());
                }
                self.set_refill_head(refill { rTime: old_head.rTime, rAmount: cur.rAmount + old_head.rAmount });
                proof {
                    let m = refill { rTime: cur_time, rAmount: (v[0].rAmount + v[1].rAmount) as u64 };
                    assert(self.refills_view() =~= seq![m] + v.subrange(2, v.len() as int));
                    lemma_refills_sum_update(v.drop_first(), 0, m);
                }
            }
            true
        } else {
            false
        }
    }

    /// Records `new_rAmount` ticks of used budget as a refill released at `new_rTime`:
    /// merged into the tail if they touch, appended if there is room, and otherwise
    /// folded into the tail, which is moved so that it ends where the new refill would.
    pub fn schedule_used(&mut self, new_rTime: ticks_t, new_rAmount: ticks_t)
        requires
            old(self).refills_wf(),
            old(self).refills_view().last().rTime + old(self).refills_view().last().rAmount <= UINT64_MAX,
            old(self).refills_view().last().rAmount + new_rAmount <= UINT64_MAX,
        ensures
            final(self).refills_wf(),
            final(self).refills_view() == schedule_used_spec(
                old(self).refills_view(),
                new_rTime,
                new_rAmount,
                old(self).scRefillMax as nat,
            ),
            refills_sum(final(self).refills_view()) == refills_sum(old(self).refills_view()) + new_rAmount,
            final(self).refills_view().last().rTime + final(self).refills_view().last().rAmount >= new_rTime
                + new_rAmount,
            refills_ordered(old(self).refills_view()) ==> refills_ordered(final(self).refills_view()),
            refills_positive(old(self).refills_view()) && new_rAmount > 0 ==> refills_positive(
                final(self).refills_view(),
            ),
            forall|b: u64|
                #![trigger refills_starts_below(final(self).refills_view(), b)]
                refills_starts_below(old(self).refills_view(), b) && new_rTime <= b
                    ==> refills_starts_below(final(self).refills_view(), b),
            final(self).scRefillMax == old(self).scRefillMax,
            final(self).scPeriod == old(self).scPeriod,
            final(self).same_binding(old(self)),
    {
        let tail = self.refill_tail();
        let ghost v = self.refills_view();
        if tail.rTime + tail.rAmount >= new_rTime {
            self.set_refill_tail(refill { rTime: tail.rTime, rAmount: tail.rAmount + new_rAmount });
            proof {
                lemma_refills_sum_update(v, v.len() - 1, self.refills_view().last());
            }
        } else if !self.refill_full() {
            self.refill_add_tail(new_rTime, new_rAmount);
            proof {
                lemma_refills_sum_push(v, refill { rTime: new_rTime, rAmount: new_rAmount });
            }
        } else {
            self.set_refill_tail(
                refill { rTime: new_rTime - tail.rAmount, rAmount: tail.rAmount + new_rAmount },
            );
            proof {
                lemma_refills_sum_update(v, v.len() - 1, self.refills_view().last());
            }
        }
    }

    /// Reports the consumed time in microseconds and clears it, or, if it exceeds what can
    /// be converted, reports the largest convertible amount and keeps the rest.
    pub fn schedContext_updateConsumed(&mut self) -> (r: time_t)
        ensures
            old(self).scConsumed >= getMaxTicksToUs_spec() ==> {
                &&& final(self).scConsumed == old(self).scConsumed - getMaxTicksToUs_spec()
                &&& r == ticks_to_us_spec(getMaxTicksToUs_spec() as int)
            },
            old(self).scConsumed < getMaxTicksToUs_spec() ==> {
                &&& final(self).scConsumed == 0
                &&& r == ticks_to_us_spec(old(self).scConsumed as int)
            },
            *final(self) == (sched_context { scConsumed: final(self).scConsumed, ..*old(self) }),
    {
        let consumed: ticks_t = self.scConsumed;
        if consumed >= getMaxTicksToUs() {
            self.scConsumed = self.scConsumed - getMaxTicksToUs();
            return ticksToUs(getMaxTicksToUs());
        } else {
            self.scConsumed = 0;
            return ticksToUs(consumed);
        }
    }

    /// Reconfigures an active context with a new period, budget and ring size, keeping the
    /// head refill's release time (moved to `cur_time` if already released): the head is
    /// trimmed to the new budget, or the missing budget is scheduled one period later.
    pub fn refill_update(
        &mut self,
        new_period: ticks_t,
        new_budget: ticks_t,
        new_max_refills: usize,
        cur_time: ticks_t,
    )
        requires
            old(self).refills_wf(),
            MIN_REFILLS <= new_max_refills <= old(self).refills.len(),
            cur_time + 625 <= UINT64_MAX,
            cur_time + new_period <= UINT64_MAX,
            old(self).refills_view()[0].rTime + new_period <= UINT64_MAX,
        ensures
            final(self).refills_wf(),
            final(self).scPeriod == new_period,
            final(self).scRefillMax == new_max_refills,
            final(self).scRefillHead == 0,
            final(self).scRefillTail == final(self).refills_view().len() - 1,
            final(self).refills_view() == refill_update_view(
                old(self).refills_view()[0],
                new_period,
                new_budget,
                cur_time,
            ),
            final(self).same_binding(old(self)),
    {
        let h = self.refill_head();
        self.refills.set(0, h);
        self.scRefillHead = 0;
        self.scRefillTail = self.scRefillHead;
        self.scRefillMax = new_max_refills;
        self.scPeriod = new_period;
        assert(self.refills_view() =~= seq![h]);
        if self.refill_ready(cur_time) {
            self.set_refill_head(refill { rTime: cur_time, rAmount: h.rAmount });
        }
        let head = self.refill_head();
        if head.rAmount >= new_budget {
            self.set_refill_head(refill { rTime: head.rTime, rAmount: new_budget });
            self.maybe_add_empty_tail();
        } else {
            self.refill_add_tail(head.rTime + new_period, new_budget - head.rAmount);
        }
    }
}


/// Latest release time that a refill may reach while budget is charged.
pub open spec fn refill_time_bound() -> u64 {
    (max_release_time() + max_period_ticks()) as u64
}

/// The refills after `amount` ticks released at `time` are scheduled behind `v`: merged into
/// the tail refill if it reaches `time`, added as a new refill if the ring (of capacity `max`)
/// has room, and otherwise merged into the tail refill, which then ends at `time + amount`.
pub open spec fn schedule_used_spec(v: Seq<refill>, time: u64, amount: u64, max: nat) -> Seq<refill> {
    let t = v.last();
    if t.rTime + t.rAmount >= time {
        v.update(v.len() - 1, refill { rTime: t.rTime, rAmount: (t.rAmount + amount) as u64 })
    } else if v.len() < max {
        v.push(refill { rTime: time, rAmount: amount })
    } else {
        v.update(v.len() - 1, refill { rTime: (time - t.rAmount) as u64, rAmount: (t.rAmount + amount) as u64 })
    }
}

/// Charging `usage` ticks against whole head refills: while the head refill is used up (and
/// not at the end of time), it is rescheduled one period later; gives the refills and the
/// usage left.
pub open spec fn charge_whole_refills(v: Seq<refill>, usage: u64, period: u64, max: nat) -> (Seq<refill>, u64)
    decreases usage,
{
    if v.len() > 0 && 0 < v[0].rAmount <= usage && v[0].rTime < max_release_time() {
        let h = v[0];
        let next = if v.len() == 1 {
            v.update(0, refill { rTime: (h.rTime + period) as u64, rAmount: h.rAmount })
        } else {
            schedule_used_spec(v.drop_first(), (h.rTime + period) as u64, h.rAmount, max)
        };
        charge_whole_refills(next, (usage - h.rAmount) as u64, period, max)
    } else {
        (v, usage)
    }
}

/// Charging what is left of the usage against the head refill: it is cut by `usage`, and
/// the used part is scheduled one period after the head's release.
pub open spec fn charge_partial_refill(v: Seq<refill>, usage: u64, period: u64, max: nat) -> Seq<refill> {
    let h = v[0];
    if usage > 0 && h.rTime < max_release_time() {
        schedule_used_spec(
            v.update(0, refill { rTime: (h.rTime + usage) as u64, rAmount: (h.rAmount - usage) as u64 }),
            (h.rTime + period) as u64,
            usage,
            max,
        )
    } else {
        v
    }
}

/// Merging head refills smaller than the minimum budget into the refill after them, which
/// moves earlier by the merged amount.
pub open spec fn merge_short_heads(v: Seq<refill>) -> Seq<refill>
    decreases v.len(),
{
    if v.len() > 1 && v[0].rAmount < min_budget() {
        let h = v[0];
        let n = v[1];
        merge_short_heads(
            v.drop_first().update(0, refill { rTime: (n.rTime - h.rAmount) as u64, rAmount: (n.rAmount + h.rAmount) as u64 }),
        )
    } else {
        v
    }
}

/// The refills after charging `usage` ticks of consumed budget.
pub open spec fn budget_check_spec(v: Seq<refill>, usage: u64, period: u64, max: nat) -> Seq<refill> {
    let (w, rest) = charge_whole_refills(v, usage, period, max);
    merge_short_heads(charge_partial_refill(w, rest, period, max))
}

/// The well-formedness of a non-round-robin ring that budget charging keeps.
pub open spec fn refills_chargeable(sc: &sched_context) -> bool {
    &&& sc.refills_wf()
    &&& 0 < sc.scPeriod <= max_period_ticks()
    &&& refills_ordered(sc.refills_view())
    &&& refills_positive(sc.refills_view())
    &&& refills_starts_below(sc.refills_view(), refill_time_bound())
    &&& min_budget() <= refills_sum(sc.refills_view()) <= max_period_ticks()
}

proof fn lemma_two_refills_sum(s: Seq<refill>)
    requires
        s.len() > 1,
    ensures
        s[0].rAmount + s.last().rAmount <= refills_sum(s),
{
    lemma_refills_sum_drop_first(s);
    lemma_refills_sum_bound(s.drop_first(), s.len() - 2);
}

proof fn lemma_ordered_drop_first(s: Seq<refill>)
    requires
        s.len() > 0,
        refills_ordered(s),
        refills_positive(s),
    ensures
        refills_ordered(s.drop_first()),
        refills_positive(s.drop_first()),
        forall|b: u64| #[trigger] refills_starts_below(s, b) ==> refills_starts_below(s.drop_first(), b),
{
    assert forall|i: int| 0 <= i < s.drop_first().len() - 1 implies #[trigger] s.drop_first()[i].rTime
        + s.drop_first()[i].rAmount <= s.drop_first()[i + 1].rTime by {
        assert(s[i + 1].rTime + s[i + 1].rAmount <= s[i + 2].rTime);
    }
    assert forall|i: int| 0 <= i < s.drop_first().len() implies #[trigger] s.drop_first()[i].rAmount > 0 by {
        assert(s[i + 1].rAmount > 0);
    }
    assert forall|b: u64| #[trigger] refills_starts_below(s, b) implies refills_starts_below(s.drop_first(), b) by {
        assert forall|i: int| 0 <= i < s.drop_first().len() implies #[trigger] s.drop_first()[i].rTime <= b by {
            assert(s[i + 1].rTime <= b);
        }
    }
}

/// Charges `_usage` ticks of consumed budget to a sporadic context: whole head refills
/// that were used up are rescheduled one period later, a partly used head is split, and
/// then heads smaller than the minimum budget are merged into the next refill.
/// The total budget is preserved, and the head ends with at least the minimum budget.
pub fn refill_budget_check(sc: &mut sched_context, _usage: ticks_t)
    requires
        refills_chargeable(old(sc)),
    ensures
        refills_chargeable(final(sc)),
        refills_sum(final(sc).refills_view()) == refills_sum(old(sc).refills_view()),
        final(sc).refills_view()[0].rAmount >= min_budget(),
        final(sc).refills_view() == budget_check_spec(
            old(sc).refills_view(),
            _usage,
            old(sc).scPeriod,
            old(sc).scRefillMax as nat,
        ),
        final(sc).scRefillMax == old(sc).scRefillMax,
        final(sc).scPeriod == old(sc).scPeriod,
        final(sc).same_binding(old(sc)),
{
    let ghost total = refills_sum(sc.refills_view());
    let ghost max = old(sc).scRefillMax as nat;
    let ghost whole = charge_whole_refills(old(sc).refills_view(), _usage, old(sc).scPeriod, max);
    let mut usage = _usage;
    while sc.refill_head().rAmount <= usage && sc.refill_head().rTime < MAX_RELEASE_TIME()
        invariant
            refills_chargeable(sc),
            refills_sum(sc.refills_view()) == total,
            max == sc.scRefillMax,
            charge_whole_refills(sc.refills_view(), usage, sc.scPeriod, max) == whole,
            sc.scRefillMax == old(sc).scRefillMax,
            sc.scPeriod == old(sc).scPeriod,
            sc.same_binding(old(sc)),
        decreases usage,
    {
        let head = sc.refill_head();
        let ghost v0 = sc.refills_view();
        let ghost u0 = usage;
        usage = usage - head.rAmount;
        proof {
            lemma_refills_sum_bound(sc.refills_view(), 0);
            assert(v0[0].rAmount > 0);
        }
        if sc.refill_single() {
            let ghost v = sc.refills_view();
            sc.set_refill_head(refill { rTime: head.rTime + sc.scPeriod, rAmount: head.rAmount });
            proof {
                lemma_refills_sum_update(v, 0, sc.refills_view()[0]);
                assert(refills_starts_below(sc.refills_view(), refill_time_bound()));
            }
        } else {
            let ghost v = sc.refills_view();
            proof {
                lemma_two_refills_sum(v);
                lemma_refills_sum_drop_first(v);
                lemma_ordered_drop_first(v);
                let e = v.last();
                assert(e.rTime <= refill_time_bound());
                lemma_refills_sum_bound(v, v.len() - 1);
            }
            let old_head = sc.refill_pop_head();
            let t = old_head.rTime + sc.scPeriod;
            sc.schedule_used(t, old_head.rAmount);
        }
        proof {
            assert(charge_whole_refills(v0, u0, sc.scPeriod, max) == charge_whole_refills(
                sc.refills_view(),
                usage,
                sc.scPeriod,
                max,
            ));
        }
    }
    proof {
        assert(charge_whole_refills(sc.refills_view(), usage, sc.scPeriod, max) == (sc.refills_view(), usage));
    }
    let ghost partial = charge_partial_refill(whole.0, whole.1, sc.scPeriod, max);
    let head = sc.refill_head();
    if usage > 0 && head.rTime < MAX_RELEASE_TIME() {
        let ghost v = sc.refills_view();
        let new_rTime = head.rTime + sc.scPeriod;
        let new_rAmount = usage;
        proof {
            lemma_refills_sum_bound(v, 0);
        }
        sc.set_refill_head(refill { rTime: head.rTime + usage, rAmount: head.rAmount - usage });
        proof {
            let w = sc.refills_view();
            lemma_refills_sum_update(v, 0, w[0]);
            assert forall|i: int| 0 <= i < w.len() - 1 implies #[trigger] w[i].rTime + w[i].rAmount
                <= w[i + 1].rTime by {
                assert(v[i].rTime + v[i].rAmount <= v[i + 1].rTime);
            }
            assert(refills_starts_below(w, refill_time_bound()));
            assert(refills_positive(w));
            lemma_refills_sum_bound(w, w.len() - 1);
            if w.len() > 1 {
                lemma_two_refills_sum(w);
            }
        }
        sc.schedule_used(new_rTime, new_rAmount);
    }
    proof {
        assert(sc.refills_view() == partial);
    }
    loop
        invariant
            refills_chargeable(sc),
            refills_sum(sc.refills_view()) == total,
            merge_short_heads(sc.refills_view()) == merge_short_heads(partial),
            sc.scRefillMax == old(sc).scRefillMax,
            sc.scPeriod == old(sc).scPeriod,
            sc.same_binding(old(sc)),
        ensures
            refills_chargeable(sc),
            refills_sum(sc.refills_view()) == total,
            sc.refills_view()[0].rAmount >= min_budget(),
            sc.refills_view() == merge_short_heads(partial),
            sc.scRefillMax == old(sc).scRefillMax,
            sc.scPeriod == old(sc).scPeriod,
            sc.same_binding(old(sc)),
        decreases sc.refill_count(),
    {
        if sc.refill_head().rAmount >= MIN_BUDGET() {
            proof {
                assert(merge_short_heads(sc.refills_view()) == sc.refills_view());
            }
            break;
        }
        let ghost v = sc.refills_view();
        proof {
            if v.len() == 1 {
                assert(refills_sum(v.drop_last()) == 0);
            }
            lemma_refills_sum_drop_first(v);
            lemma_refills_sum_drop_first(v.drop_first());
            lemma_refills_sum_nonneg(v.drop_first().drop_first());
            lemma_ordered_drop_first(v);
            assert(v[0].rTime + v[0].rAmount <= v[1].rTime);
        }
        let head = sc.refill_pop_head();
        let next = sc.refill_head();
        sc.set_refill_head(refill { rTime: next.rTime - head.rAmount, rAmount: next.rAmount + head.rAmount });
        proof {
            let w = sc.refills_view();
            let u = v.drop_first();
            lemma_refills_sum_update(u, 0, w[0]);
            assert forall|i: int| 0 <= i < w.len() - 1 implies #[trigger] w[i].rTime + w[i].rAmount
                <= w[i + 1].rTime by {
                assert(u[i].rTime + u[i].rAmount <= u[i + 1].rTime);
            }
            assert(refills_starts_below(w, refill_time_bound()));
            assert(refills_positive(w));
            assert(w =~= v.drop_first().update(
                0,
                refill { rTime: (v[1].rTime - v[0].rAmount) as u64, rAmount: (v[1].rAmount + v[0].rAmount) as u64 },
            ));
            assert(merge_short_heads(v) == merge_short_heads(w));
        }
    }
}

impl sched_context {
    /// Binds this scheduling context (at `self_ptr`) and notification `ntfn` (at `ntfn_ptr`)
    /// to each other.
    pub fn schedContext_bindNtfn(&mut self, self_ptr: usize, ntfn: &mut notification_t, ntfn_ptr: usize)
        ensures
            *final(ntfn) == (notification_t { ntfnSchedContext: self_ptr, ..*old(ntfn) }),
            *final(self) == (sched_context { scNotification: ntfn_ptr, ..*old(self) }),
    {
        ntfn.set_ntfnSchedContext(self_ptr);
        self.scNotification = ntfn_ptr;
    }

    /// Undoes the binding of this scheduling context and its notification, if it has one;
    /// `ntfns` holds the notifications, indexed by their pointers.
    pub fn schedContext_unbindNtfn(&mut self, ntfns: &mut Vec<notification_t>)
        requires
            old(self).scNotification < old(ntfns).len(),
        ensures
            *final(self) == (sched_context { scNotification: 0, ..*old(self) }),
            old(self).scNotification == 0 ==> final(ntfns)@ == old(ntfns)@,
            old(self).scNotification != 0 ==> final(ntfns)@ == old(ntfns)@.update(
                old(self).scNotification as int,
                notification_t { ntfnSchedContext: 0, ..old(ntfns)@[old(self).scNotification as int] },
            ),
    {
        if self.scNotification != 0 {
            let p = self.scNotification;
            let mut n = ntfns[p];
            n.set_ntfnSchedContext(0);
            ntfns.set(p, n);
            self.scNotification = 0;
        }
    }

    /// Reports the consumed time of this scheduling context to the current thread: its first
    /// message register receives the microseconds (see `schedContext_updateConsumed`) and its
    /// message-info register a one-word message.
    pub fn setConsumed(&mut self, ks: &mut KernelState)
        requires
            old(ks).wf(),
        ensures
            final(ks).wf(),
            final(ks).node == old(ks).node,
            final(ks).tcbs@ == old(ks).tcbs@.update(
                old(ks).node.ksCurThread as int,
                final(ks).tcbs@[old(ks).node.ksCurThread as int],
            ),
            final(ks).ksCurDomain == old(ks).ksCurDomain,
            final(ks).ksDomainTime == old(ks).ksDomainTime,
            final(ks).ksDomScheduleIdx == old(ks).ksDomScheduleIdx,
            final(ks).ksWorkUnitsCompleted == old(ks).ksWorkUnitsCompleted,
            final(ks).ksDomSchedule@ == old(ks).ksDomSchedule@,
            ({
                let t0 = old(ks).tcbs@[old(ks).node.ksCurThread as int];
                let t1 = final(ks).tcbs@[old(ks).node.ksCurThread as int];
                let us = if old(self).scConsumed >= getMaxTicksToUs_spec() {
                    ticks_to_us_spec(getMaxTicksToUs_spec() as int)
                } else {
                    ticks_to_us_spec(old(self).scConsumed as int)
                };
                &&& same_but_mrs(t0, t1)
                &&& t1.ipcBuffer.msg@ == t0.ipcBuffer.msg@
                &&& t1.tcbArch.registers@ == t0.tcbArch.registers@.update(2, us as usize).update(1, 1)
            }),
            old(self).scConsumed >= getMaxTicksToUs_spec() ==> final(self).scConsumed == old(self).scConsumed
                - getMaxTicksToUs_spec(),
            old(self).scConsumed < getMaxTicksToUs_spec() ==> final(self).scConsumed == 0,
            *final(self) == (sched_context { scConsumed: final(self).scConsumed, ..*old(self) }),
    {
        let consumed = self.schedContext_updateConsumed();
        let cur = get_currenct_thread(ks);
        let length = ks.tcbs[cur].set_mr(0, consumed as usize);
        let info = seL4_MessageInfo_t::new(0, 0, 0, length as u64).to_word();
        ks.tcbs[cur].tcbArch.set_register(ArchReg::MsgInfo, info as usize);
        assert(ks.tcbs@ == old(ks).tcbs@.update(cur as int, ks.tcbs@[cur as int]));
        proof {
            lemma_wf_tcb_update(*old(ks), *ks, cur as int);
        }
    }
}

/// Flag of a sporadic scheduling context.
pub const seL4_SchedContext_Sporadic: usize = 1;

impl sched_context {
    /// The scheduling context's part of a configuration: it takes `badge`, becomes sporadic as
    /// `flags` say, and gets `budget` every `period` ticks. A budget equal to the period makes
    /// it round robin with a fresh ring of the fewest refills; an active context bound to a
    /// runnable thread (`bound_runnable` says whether its thread is runnable) keeps its head
    /// refill, updated; any other gets a fresh ring of `max_refills` refills from `cur_time`.
    pub fn configure_refills(
        &mut self,
        budget: ticks_t,
        period: ticks_t,
        max_refills: usize,
        badge: usize,
        flags: usize,
        bound_runnable: bool,
        cur_time: ticks_t,
    )
        requires
            old(self).scRefillMax > 0 ==> old(self).refills_wf(),
            MIN_REFILLS <= max_refills <= old(self).refills.len(),
            min_budget() <= budget <= period,
            cur_time + 625 <= UINT64_MAX,
            cur_time + period <= UINT64_MAX,
            old(self).scRefillMax > 0 ==> old(self).refills_view()[0].rTime + period <= UINT64_MAX,
        ensures
            final(self).refills_wf(),
            final(self).scBadge == badge,
            final(self).scSporadic == (flags & seL4_SchedContext_Sporadic != 0),
            final(self).scRefillHead == 0,
            final(self).scConsumed == old(self).scConsumed,
            final(self).scCore == old(self).scCore,
            final(self).scTcb == old(self).scTcb,
            final(self).scReply == old(self).scReply,
            final(self).scNotification == old(self).scNotification,
            final(self).scYieldFrom == old(self).scYieldFrom,
            final(self).refills.len() == old(self).refills.len(),
            budget == period ==> {
                &&& final(self).scPeriod == 0
                &&& final(self).scRefillMax == MIN_REFILLS
                &&& final(self).refills_view() == refill_new_view(budget, 0, cur_time)
            },
            budget != period && old(self).scRefillMax > 0 && old(self).scTcb != 0 && bound_runnable ==> {
                &&& final(self).scPeriod == period
                &&& final(self).scRefillMax == max_refills
                &&& final(self).refills_view() == refill_update_view(
                    old(self).refills_view()[0],
                    period,
                    budget,
                    cur_time,
                )
            },
            budget != period && !(old(self).scRefillMax > 0 && old(self).scTcb != 0 && bound_runnable) ==> {
                &&& final(self).scPeriod == period
                &&& final(self).scRefillMax == max_refills
                &&& final(self).refills_view() == refill_new_view(budget, period, cur_time)
            },
    {
        self.scBadge = badge;
        self.scSporadic = (flags & seL4_SchedContext_Sporadic) != 0;
        if budget == period {
            self.refill_new(MIN_REFILLS, budget, 0, cur_time);
        } else if self.scRefillMax > 0 && self.scTcb != 0 && bound_runnable {
            self.refill_update(period, budget, max_refills, cur_time);
        } else {
            self.refill_new(max_refills, budget, period, cur_time);
        }
    }
}

/// The sum of one or two refills.
proof fn lemma_refills_sum_small(a: refill, b: refill)
    ensures
        refills_sum(seq![a]) == a.rAmount,
        refills_sum(seq![a, b]) == a.rAmount + b.rAmount,
{
    reveal_with_fuel(refills_sum, 3);
    assert(seq![a].drop_last() =~= Seq::<refill>::empty());
    assert(seq![a, b].drop_last() =~= seq![a]);
}

/// A sporadic context given a fresh ring by `refill_new` can be charged: its one refill holds
/// a budget of at least the smallest budget and at most the period, released no later than the
/// latest release time.
pub proof fn lemma_refill_new_chargeable(sc: sched_context, budget: ticks_t, cur_time: ticks_t)
    requires
        sc.refills_wf(),
        0 < sc.scPeriod <= max_period_ticks(),
        min_budget() <= budget <= sc.scPeriod,
        cur_time <= refill_time_bound(),
        sc.refills_view() == refill_new_view(budget, sc.scPeriod, cur_time),
    ensures
        refills_chargeable(&sc),
{
    lemma_refills_sum_small(refill { rTime: cur_time, rAmount: budget }, refill { rTime: cur_time, rAmount: 0 });
}

/// A sporadic context whose budget and period `refill_update` changed can be charged, when its
/// old head refill carried some budget, no more than the new period, and the release times
/// stay within the latest release time.
pub proof fn lemma_refill_update_chargeable(sc: sched_context, h: refill, budget: ticks_t, cur_time: ticks_t)
    requires
        sc.refills_wf(),
        0 < sc.scPeriod <= max_period_ticks(),
        min_budget() <= budget <= sc.scPeriod,
        0 < h.rAmount <= sc.scPeriod,
        cur_time + sc.scPeriod <= refill_time_bound(),
        h.rTime + sc.scPeriod <= refill_time_bound(),
        sc.refills_view() == refill_update_view(h, sc.scPeriod, budget, cur_time),
    ensures
        refills_chargeable(&sc),
{
    let t = if h.rTime <= cur_time + 625 { cur_time } else { h.rTime };
    lemma_refills_sum_small(refill { rTime: t, rAmount: budget }, refill { rTime: t, rAmount: 0 });
    lemma_refills_sum_small(
        refill { rTime: t, rAmount: h.rAmount },
        refill { rTime: (t + sc.scPeriod) as u64, rAmount: (budget - h.rAmount) as u64 },
    );
}

/// Charging `amount` ticks used at `time` never makes budget available early: the last refill
/// then ends no earlier than the used ticks would if they were released at `time`, and the
/// refills before it are untouched. (With room in the ring the used ticks become a refill of
/// their own at `time`; otherwise they join the last refill, which is moved no earlier.)
pub proof fn lemma_schedule_used_not_early(v: Seq<refill>, time: u64, amount: u64, max: nat)
    requires
        v.len() > 0,
        v.last().rTime + v.last().rAmount <= u64::MAX,
        v.last().rAmount + amount <= u64::MAX,
    ensures
        ({
            let r = schedule_used_spec(v, time, amount, max);
            &&& r.len() == v.len() || r.len() == v.len() + 1
            &&& r.last().rTime + r.last().rAmount >= time + amount
            &&& r.last().rTime + r.last().rAmount == (if v.last().rTime + v.last().rAmount >= time {
                v.last().rTime + v.last().rAmount
            } else {
                time as int
            }) + amount
            &&& r.last().rTime >= v.last().rTime
            &&& forall|i: int| 0 <= i < v.len() - 1 ==> #[trigger] r[i] == v[i]
        }),
{
}
} // verus!
