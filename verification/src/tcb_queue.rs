//! Intrusive doubly-linked queues of threads. Threads live in an arena indexed by their
//! pointer (0 is the null pointer); a queue links them through either the scheduling links
//! (`tcbSchedPrev`/`tcbSchedNext`) or the endpoint links (`tcbEPPrev`/`tcbEPNext`).
use vstd::prelude::*;
use crate::tcb::tcb_t;

verus! {

/// A queue of threads: its head and tail pointers, and the threads in order.
pub struct tcb_queue_t {
    pub head: usize,
    pub tail: usize,
    pub seq: Ghost<Seq<usize>>,
}

/// Previous thread on the selected links.
pub open spec fn prev_of(t: tcb_t, ep: bool) -> usize {
    if ep {
        t.tcbEPPrev
    } else {
        t.tcbSchedPrev
    }
}

/// Next thread on the selected links.
pub open spec fn next_of(t: tcb_t, ep: bool) -> usize {
    if ep {
        t.tcbEPNext
    } else {
        t.tcbSchedNext
    }
}

/// The thread with its selected links cleared.
pub open spec fn strip_links(t: tcb_t, ep: bool) -> tcb_t {
    if ep {
        tcb_t { tcbEPPrev: 0, tcbEPNext: 0, ..t }
    } else {
        tcb_t { tcbSchedPrev: 0, tcbSchedNext: 0, ..t }
    }
}

/// Two threads agree on everything but the selected links.
pub open spec fn same_but_links(a: tcb_t, b: tcb_t, ep: bool) -> bool {
    strip_links(a, ep) == strip_links(b, ep)
}

/// The queue's head, tail and links agree with its sequence of threads, which are distinct
/// non-null threads of the arena.
pub open spec fn queue_wf(head: usize, tail: usize, s: Seq<usize>, tcbs: Seq<tcb_t>, ep: bool) -> bool {
    &&& head == (if s.len() == 0 { 0 } else { s[0] })
    &&& tail == (if s.len() == 0 { 0 } else { s.last() })
    &&& s.no_duplicates()
    &&& forall|i: int| 0 <= i < s.len() ==> 0 < #[trigger] s[i] < tcbs.len()
    &&& forall|i: int|
        0 <= i < s.len() ==> prev_of(tcbs[#[trigger] s[i] as int], ep) == (if i == 0 { 0 } else { s[i - 1] })
    &&& forall|i: int|
        0 <= i < s.len() ==> next_of(tcbs[#[trigger] s[i] as int], ep) == (if i == s.len() - 1 { 0 } else {
            s[i + 1]
        })
}

/// The queue's invariant holds in an arena whose queued threads keep their links.
pub proof fn lemma_queue_wf_frame(
    head: usize,
    tail: usize,
    s: Seq<usize>,
    tcbs: Seq<tcb_t>,
    tcbs2: Seq<tcb_t>,
    ep: bool,
)
    requires
        queue_wf(head, tail, s, tcbs, ep),
        tcbs2.len() == tcbs.len(),
        forall|i: int|
            0 <= i < s.len() ==> prev_of(tcbs2[#[trigger] s[i] as int], ep) == prev_of(tcbs[s[i] as int], ep)
                && next_of(tcbs2[s[i] as int], ep) == next_of(tcbs[s[i] as int], ep),
    ensures
        queue_wf(head, tail, s, tcbs2, ep),
{
}

/// Arenas of equal length whose threads agree on everything but the selected links.
pub open spec fn arena_same_but_links(a: Seq<tcb_t>, b: Seq<tcb_t>, ep: bool) -> bool {
    &&& a.len() == b.len()
    &&& forall|j: int| 0 <= j < a.len() ==> same_but_links(#[trigger] a[j], b[j], ep)
}

proof fn lemma_arena_same_but_links_trans(a: Seq<tcb_t>, b: Seq<tcb_t>, c: Seq<tcb_t>, ep: bool)
    requires
        arena_same_but_links(a, b, ep),
        arena_same_but_links(b, c, ep),
    ensures
        arena_same_but_links(a, c, ep),
{
    assert forall|j: int| 0 <= j < a.len() implies same_but_links(#[trigger] a[j], c[j], ep) by {
        assert(same_but_links(a[j], b[j], ep));
        assert(same_but_links(b[j], c[j], ep));
    }
}

/// Sets the selected previous link of thread `x`.
fn set_prev(tcbs: &mut Vec<tcb_t>, x: usize, v: usize, ep: bool)
    requires
        x < old(tcbs).len(),
    ensures
        final(tcbs)@ == old(tcbs)@.update(
            x as int,
            if ep {
                tcb_t { tcbEPPrev: v, ..old(tcbs)@[x as int] }
            } else {
                tcb_t { tcbSchedPrev: v, ..old(tcbs)@[x as int] }
            },
        ),
        forall|j: int| 0 <= j < final(tcbs).len() ==> same_but_links(#[trigger] final(tcbs)@[j], old(tcbs)@[j], ep),
{
    if ep {
        tcbs[x].tcbEPPrev = v;
    } else {
        tcbs[x].tcbSchedPrev = v;
    }
    assert forall|j: int| 0 <= j < tcbs.len() implies same_but_links(#[trigger] tcbs@[j], old(tcbs)@[j], ep) by {
        if j == x {
            assert(strip_links(tcbs@[j], ep) == strip_links(old(tcbs)@[j], ep));
        }
    }
}

/// Sets the selected next link of thread `x`.
fn set_next(tcbs: &mut Vec<tcb_t>, x: usize, v: usize, ep: bool)
    requires
        x < old(tcbs).len(),
    ensures
        final(tcbs)@ == old(tcbs)@.update(
            x as int,
            if ep {
                tcb_t { tcbEPNext: v, ..old(tcbs)@[x as int] }
            } else {
                tcb_t { tcbSchedNext: v, ..old(tcbs)@[x as int] }
            },
        ),
        forall|j: int| 0 <= j < final(tcbs).len() ==> same_but_links(#[trigger] final(tcbs)@[j], old(tcbs)@[j], ep),
{
    if ep {
        tcbs[x].tcbEPNext = v;
    } else {
        tcbs[x].tcbSchedNext = v;
    }
    assert forall|j: int| 0 <= j < tcbs.len() implies same_but_links(#[trigger] tcbs@[j], old(tcbs)@[j], ep) by {
        if j == x {
            assert(strip_links(tcbs@[j], ep) == strip_links(old(tcbs)@[j], ep));
        }
    }
}

/// Links thread `x` after the tail of the queue `(head, tail)` with sequence `s`.
/// Returns the new head and tail. Only `x` and the old tail change, and only in their
/// selected links.
pub fn queue_append(
    head: usize,
    tail: usize,
    tcbs: &mut Vec<tcb_t>,
    x: usize,
    ep: bool,
    Ghost(s): Ghost<Seq<usize>>,
) -> (r: (usize, usize))
    requires
        queue_wf(head, tail, s, old(tcbs)@, ep),
        0 < x < old(tcbs).len(),
        !s.contains(x),
    ensures
        queue_wf(r.0, r.1, s.push(x), final(tcbs)@, ep),
        final(tcbs).len() == old(tcbs).len(),
        forall|j: int| 0 <= j < final(tcbs).len() ==> same_but_links(#[trigger] final(tcbs)@[j], old(tcbs)@[j], ep),
        forall|j: int|
            0 <= j < final(tcbs).len() && j != x && j != tail ==> #[trigger] final(tcbs)@[j] == old(tcbs)@[j],
{
    let ghost t0 = tcbs@;
    let new_head = if head == 0 {
        x
    } else {
        set_next(tcbs, tail, x, ep);
        head
    };
    let ghost t1 = tcbs@;
    assert(arena_same_but_links(t1, t0, ep));
    set_prev(tcbs, x, tail, ep);
    let ghost t2 = tcbs@;
    set_next(tcbs, x, 0, ep);
    let ghost s2 = s.push(x);
    proof {
        assert(arena_same_but_links(t2, t1, ep));
        assert(arena_same_but_links(tcbs@, t2, ep));
        lemma_arena_same_but_links_trans(t2, t1, t0, ep);
        lemma_arena_same_but_links_trans(tcbs@, t2, t0, ep);
        assert forall|i: int| 0 <= i < s2.len() implies 0 < #[trigger] s2[i] < tcbs.len() by {
            if i < s.len() {
                assert(s2[i] == s[i]);
            }
        }
        assert forall|i: int| 0 <= i < s2.len() implies prev_of(tcbs@[#[trigger] s2[i] as int], ep) == (if i
            == 0 { 0 } else { s2[i - 1] }) by {
            if i < s.len() {
                assert(s2[i] == s[i]);
                assert(s[i] != x);
            }
        }
        assert forall|i: int| 0 <= i < s2.len() implies next_of(tcbs@[#[trigger] s2[i] as int], ep) == (if i
            == s2.len() - 1 { 0 } else { s2[i + 1] }) by {
            if i < s.len() {
                assert(s2[i] == s[i]);
                assert(s[i] != x);
                if i < s.len() - 1 {
                    assert(s[i] != tail) by {
                        assert(s[s.len() - 1] == tail);
                    }
                }
            }
        }
        assert forall|a: int, b: int| 0 <= a < s2.len() && 0 <= b < s2.len() && a != b implies s2[a] != s2[b] by {
            if a < s.len() && b < s.len() {
            } else if a < s.len() {
                assert(s.contains(s[a]));
            } else if b < s.len() {
                assert(s.contains(s[b]));
            }
        }
    }
    (new_head, x)
}

/// Unlinks thread `x`, at position `k` of the queue `(head, tail)` with sequence `s`.
/// Returns the new head and tail. Only the neighbours of `x` change, and only in their
/// selected links; the links of `x` itself are left as they were.
#[verifier::spinoff_prover]
#[verifier::rlimit(100)]
pub fn queue_remove(
    head: usize,
    tail: usize,
    tcbs: &mut Vec<tcb_t>,
    x: usize,
    ep: bool,
    Ghost(s): Ghost<Seq<usize>>,
    Ghost(k): Ghost<int>,
) -> (r: (usize, usize))
    requires
        queue_wf(head, tail, s, old(tcbs)@, ep),
        0 <= k < s.len(),
        s[k] == x,
    ensures
        queue_wf(r.0, r.1, s.remove(k), final(tcbs)@, ep),
        final(tcbs).len() == old(tcbs).len(),
        forall|j: int| 0 <= j < final(tcbs).len() ==> same_but_links(#[trigger] final(tcbs)@[j], old(tcbs)@[j], ep),
        forall|j: int|
            0 <= j < final(tcbs).len() && (k == 0 || j != s[k - 1]) && (k == s.len() - 1 || j != s[k + 1])
                ==> #[trigger] final(tcbs)@[j] == old(tcbs)@[j],
{
    let prev = if ep { tcbs[x].tcbEPPrev } else { tcbs[x].tcbSchedPrev };
    let next = if ep { tcbs[x].tcbEPNext } else { tcbs[x].tcbSchedNext };
    assert(s[k] == x);
    let mut new_head = head;
    let mut new_tail = tail;
    let ghost t0 = tcbs@;
    if prev != 0 {
        set_next(tcbs, prev, next, ep);
    } else {
        new_head = next;
    }
    let ghost t1 = tcbs@;
    assert(arena_same_but_links(t1, t0, ep));
    if next != 0 {
        set_prev(tcbs, next, prev, ep);
    } else {
        new_tail = prev;
    }
    let ghost s2 = s.remove(k);
    proof {
        assert(arena_same_but_links(tcbs@, t1, ep));
        lemma_arena_same_but_links_trans(tcbs@, t1, t0, ep);
        assert(k > 0 ==> prev == s[k - 1]);
        assert(k == 0 ==> prev == 0);
        assert(k < s.len() - 1 ==> next == s[k + 1]);
        assert(k == s.len() - 1 ==> next == 0);
        assert forall|i: int| 0 <= i < s2.len() implies 0 < #[trigger] s2[i] < tcbs.len() by {
            if i < k {
                assert(s2[i] == s[i]);
            } else {
                assert(s2[i] == s[i + 1]);
            }
        }
        assert forall|i: int| 0 <= i < s2.len() implies prev_of(tcbs@[#[trigger] s2[i] as int], ep) == (if i
            == 0 { 0 } else { s2[i - 1] }) by {
            if i < k {
                assert(s2[i] == s[i]);
                if i == k - 1 {
                    assert(s[i] == prev);
                }
                assert(s[i] != next || next == 0) by {
                    if next != 0 {
                        assert(s[k + 1] == next);
                    }
                }
            } else {
                assert(s2[i] == s[i + 1]);
                if i > k {
                    assert(s[i + 1] != next) by {
                        assert(s[k + 1] == next);
                    }
                }
                if i > 0 {
                    assert(s[i + 1] != prev || prev == 0) by {
                        if prev != 0 {
                            assert(s[k - 1] == prev);
                        }
                    }
                }
            }
        }
        assert forall|i: int| 0 <= i < s2.len() implies next_of(tcbs@[#[trigger] s2[i] as int], ep) == (if i
            == s2.len() - 1 { 0 } else { s2[i + 1] }) by {
            if i < k {
                assert(s2[i] == s[i]);
                if i < k - 1 {
                    assert(s[i] != prev) by {
                        assert(s[k - 1] == prev);
                    }
                }
                assert(s[i] != next || next == 0) by {
                    if next != 0 {
                        assert(s[k + 1] == next);
                    }
                }
            } else {
                assert(s2[i] == s[i + 1]);
                assert(s[i + 1] != prev || prev == 0) by {
                    if prev != 0 {
                        assert(s[k - 1] == prev);
                    }
                }
            }
        }
        assert forall|a: int, b: int| 0 <= a < s2.len() && 0 <= b < s2.len() && a != b implies s2[a] != s2[b] by {
            let a1 = if a < k { a } else { a + 1 };
            let b1 = if b < k { b } else { b + 1 };
            assert(s2[a] == s[a1]);
            assert(s2[b] == s[b1]);
        }
        assert forall|j: int|
            0 <= j < tcbs.len() && (k == 0 || j != s[k - 1]) && (k == s.len() - 1 || j != s[k + 1])
                implies #[trigger] tcbs@[j] == old(tcbs)@[j] by {
        }
    }
    (new_head, new_tail)
}


/// The links that `queue_insert` leaves make a well-formed queue of `s` with `x` at `k`.
#[verifier::spinoff_prover]
#[verifier::rlimit(100)]
proof fn lemma_insert_wf(
    head: usize,
    tail: usize,
    s: Seq<usize>,
    k: int,
    x: usize,
    before: usize,
    after: usize,
    t0: Seq<tcb_t>,
    t: Seq<tcb_t>,
    ep: bool,
)
    requires
        queue_wf(head, tail, s, t0, ep),
        0 < x < t0.len(),
        t.len() == t0.len(),
        !s.contains(x),
        0 <= k <= s.len(),
        before == (if k == 0 { 0 } else { s[k - 1] }),
        after == (if k == s.len() { 0 } else { s[k] }),
        forall|j: int| 0 <= j < t.len() && j != x && j != before && j != after ==> #[trigger] t[j] == t0[j],
        prev_of(t[x as int], ep) == before,
        next_of(t[x as int], ep) == after,
        before != 0 ==> next_of(t[before as int], ep) == x && prev_of(t[before as int], ep) == prev_of(t0[before as int], ep),
        after != 0 ==> prev_of(t[after as int], ep) == x && next_of(t[after as int], ep) == next_of(t0[after as int], ep),
    ensures
        queue_wf(
            if before == 0 { x } else { head },
            if after == 0 { x } else { tail },
            s.insert(k, x),
            t,
            ep,
        ),
{
    let s2 = s.insert(k, x);
    assert(s2.len() == s.len() + 1);
    assert(k > 0 ==> before != 0 && before != x && s[k - 1] == before);
    assert(k < s.len() ==> after != 0 && after != x && s[k] == after);
    assert forall|i: int| 0 <= i < s2.len() implies 0 < #[trigger] s2[i] < t.len() by {
        if i < k {
            assert(s2[i] == s[i]);
        } else if i > k {
            assert(s2[i] == s[i - 1]);
        }
    }
    assert forall|i: int| 0 <= i < s2.len() implies prev_of(t[#[trigger] s2[i] as int], ep) == (if i == 0 {
        0
    } else {
        s2[i - 1]
    }) by {
        if i < k {
            assert(s2[i] == s[i]);
            assert(s[i] != x);
            if k < s.len() {
                assert(s[i] != s[k]);
            }
            if i > 0 {
                assert(s2[i - 1] == s[i - 1]);
            }
        } else if i > k {
            assert(s2[i] == s[i - 1]);
            assert(s[i - 1] != x);
            if k > 0 {
                assert(s[i - 1] != s[k - 1]);
            }
            if i == k + 1 {
                assert(s2[k] == x);
            } else {
                assert(s[i - 1] != s[k]);
                assert(s2[i - 1] == s[i - 2]);
            }
        } else {
            assert(s2[k] == x);
            if k > 0 {
                assert(s2[k - 1] == s[k - 1]);
            }
        }
    }
    assert forall|i: int| 0 <= i < s2.len() implies next_of(t[#[trigger] s2[i] as int], ep) == (if i == s2.len()
        - 1 {
        0
    } else {
        s2[i + 1]
    }) by {
        if i < k {
            assert(s2[i] == s[i]);
            assert(s[i] != x);
            if k < s.len() {
                assert(s[i] != s[k]);
            }
            if i == k - 1 {
                assert(s2[k] == x);
            } else {
                assert(s[i] != s[k - 1]);
                assert(s2[i + 1] == s[i + 1]);
            }
        } else if i > k {
            assert(s2[i] == s[i - 1]);
            assert(s[i - 1] != x);
            if k > 0 {
                assert(s[i - 1] != s[k - 1]);
            }
            if i < s2.len() - 1 {
                assert(s2[i + 1] == s[i]);
            }
        } else {
            assert(s2[k] == x);
            if k < s.len() {
                assert(s2[k + 1] == s[k]);
            }
        }
    }
    assert forall|a: int, b: int| 0 <= a < s2.len() && 0 <= b < s2.len() && a != b implies s2[a] != s2[b] by {
        if a != k && b != k {
            let a1 = if a < k { a } else { a - 1 };
            let b1 = if b < k { b } else { b - 1 };
            assert(s2[a] == s[a1]);
            assert(s2[b] == s[b1]);
        } else if a == k {
            let b1 = if b < k { b } else { b - 1 };
            assert(s2[b] == s[b1]);
            assert(s.contains(s[b1]));
        } else {
            let a1 = if a < k { a } else { a - 1 };
            assert(s2[a] == s[a1]);
            assert(s.contains(s[a1]));
        }
    }
    assert(s2[0] == if k == 0 { x } else { s[0] });
    assert(s2.last() == if k == s.len() { x } else { s.last() });
}

/// Links thread `x` into the queue `(head, tail)` with sequence `s` at position `k`, between
/// `before` (the thread before it, 0 at the front) and `after` (the thread after it, 0 at the
/// back). Returns the new head and tail. Only `x`, `before` and `after` change, and only in
/// their selected links.
#[verifier::spinoff_prover]
#[verifier::rlimit(100)]
fn queue_insert(
    head: usize,
    tail: usize,
    tcbs: &mut Vec<tcb_t>,
    x: usize,
    before: usize,
    after: usize,
    ep: bool,
    Ghost(s): Ghost<Seq<usize>>,
    Ghost(k): Ghost<int>,
) -> (r: (usize, usize))
    requires
        queue_wf(head, tail, s, old(tcbs)@, ep),
        0 < x < old(tcbs).len(),
        !s.contains(x),
        0 <= k <= s.len(),
        before == (if k == 0 { 0 } else { s[k - 1] }),
        after == (if k == s.len() { 0 } else { s[k] }),
    ensures
        queue_wf(r.0, r.1, s.insert(k, x), final(tcbs)@, ep),
        final(tcbs).len() == old(tcbs).len(),
        forall|j: int| 0 <= j < final(tcbs).len() ==> same_but_links(#[trigger] final(tcbs)@[j], old(tcbs)@[j], ep),
        forall|j: int|
            0 <= j < final(tcbs).len() && j != x && j != before && j != after ==> #[trigger] final(tcbs)@[j]
                == old(tcbs)@[j],
{
    let ghost t0 = tcbs@;
    let new_head = if before == 0 {
        x
    } else {
        set_next(tcbs, before, x, ep);
        head
    };
    let ghost t1 = tcbs@;
    let new_tail = if after == 0 {
        x
    } else {
        set_prev(tcbs, after, x, ep);
        tail
    };
    let ghost t2 = tcbs@;
    set_next(tcbs, x, after, ep);
    let ghost t3 = tcbs@;
    set_prev(tcbs, x, before, ep);
    proof {
        assert(arena_same_but_links(t1, t0, ep));
        assert(arena_same_but_links(t2, t1, ep));
        assert(arena_same_but_links(t3, t2, ep));
        assert(arena_same_but_links(tcbs@, t3, ep));
        lemma_arena_same_but_links_trans(t2, t1, t0, ep);
        lemma_arena_same_but_links_trans(t3, t2, t0, ep);
        lemma_arena_same_but_links_trans(tcbs@, t3, t0, ep);
        assert(k > 0 ==> before != 0 && before != x && s[k - 1] == before);
        assert(k < s.len() ==> after != 0 && after != x && s[k] == after);
        assert(k > 0 && k < s.len() ==> before != after);
        lemma_insert_wf(head, tail, s, k, x, before, after, t0, tcbs@, ep);
    }
    (new_head, new_tail)
}

/// Where a thread of priority `prio` goes in the endpoint queue `s`: behind the last thread,
/// counted from the back, whose priority is at least `prio`.
pub open spec fn prio_insert_pos(s: Seq<usize>, tcbs: Seq<tcb_t>, prio: usize) -> int
    decreases s.len(),
{
    if s.len() == 0 {
        0
    } else if prio > tcbs[s.last() as int].tcbPriority {
        prio_insert_pos(s.drop_last(), tcbs, prio)
    } else {
        s.len() as int
    }
}
impl tcb_queue_t {
    /// An empty queue.
    pub fn new() -> (r: Self)
        ensures
            r.head == 0,
            r.tail == 0,
            r.seq@ == Seq::<usize>::empty(),
    {
        tcb_queue_t { head: 0, tail: 0, seq: Ghost(Seq::empty()) }
    }

    /// The queue is consistent with the threads' endpoint links.
    pub open spec fn ep_wf(&self, tcbs: Seq<tcb_t>) -> bool {
        queue_wf(self.head, self.tail, self.seq@, tcbs, true)
    }

    /// Whether the queue is empty.
    pub fn empty(&self) -> (r: bool)
        ensures
            r == (self.head == 0),
            self.head == 0 ==> r,
    {
        return self.head == 0;
    }

    /// Appends thread `tcb` to an endpoint queue.
    pub fn ep_append(&mut self, tcbs: &mut Vec<tcb_t>, tcb: usize)
        requires
            old(self).ep_wf(old(tcbs)@),
            0 < tcb < old(tcbs).len(),
            !old(self).seq@.contains(tcb),
        ensures
            final(self).ep_wf(final(tcbs)@),
            final(self).seq@ == old(self).seq@.push(tcb),
            final(tcbs).len() == old(tcbs).len(),
            forall|j: int| 0 <= j < final(tcbs).len() ==> same_but_links(#[trigger] final(tcbs)@[j], old(tcbs)@[j], true),
            forall|j: int|
                0 <= j < final(tcbs).len() && j != tcb && j != old(self).tail ==> #[trigger] final(tcbs)@[j]
                    == old(tcbs)@[j],
    {
        let (h, t) = queue_append(self.head, self.tail, tcbs, tcb, true, Ghost(self.seq@));
        self.head = h;
        self.tail = t;
        self.seq = Ghost(self.seq@.push(tcb));
    }


    /// Puts thread `tcb` into an endpoint queue kept in priority order: scanning from the
    /// tail, it goes behind the last thread whose priority is at least its own.
    pub fn ep_append_by_priority(&mut self, tcbs: &mut Vec<tcb_t>, tcb: usize)
        requires
            old(self).ep_wf(old(tcbs)@),
            0 < tcb < old(tcbs).len(),
            !old(self).seq@.contains(tcb),
        ensures
            final(self).ep_wf(final(tcbs)@),
            final(self).seq@ == old(self).seq@.insert(
                prio_insert_pos(old(self).seq@, old(tcbs)@, old(tcbs)@[tcb as int].tcbPriority),
                tcb,
            ),
            final(tcbs).len() == old(tcbs).len(),
            forall|j: int| 0 <= j < final(tcbs).len() ==> same_but_links(#[trigger] final(tcbs)@[j], old(tcbs)@[j], true),
    {
        let ghost s = self.seq@;
        let prio = tcbs[tcb].tcbPriority;
        let mut before = self.tail;
        let mut after: usize = 0;
        let ghost mut k: int = s.len() as int;
        proof {
            assert(s.take(s.len() as int) =~= s);
        }
        while before != 0 && prio > tcbs[before].tcbPriority
            invariant
                self.ep_wf(tcbs@),
                self.seq@ == s,
                prio == tcbs@[tcb as int].tcbPriority,
                0 <= k <= s.len(),
                before == (if k == 0 { 0 } else { s[k - 1] }),
                after == (if k == s.len() { 0 } else { s[k] }),
                prio_insert_pos(s, tcbs@, prio) == prio_insert_pos(s.take(k), tcbs@, prio),
            decreases k,
        {
            proof {
                assert(k > 0);
                assert(s.take(k).drop_last() =~= s.take(k - 1));
                assert(s.take(k).last() == s[k - 1]);
                assert(0 < s[k - 1] < tcbs.len());
            }
            after = before;
            before = tcbs[after].tcbEPPrev;
            proof {
                k = k - 1;
            }
        }
        proof {
            if k > 0 {
                assert(s.take(k).last() == s[k - 1]);
                assert(s.take(k).len() == k);
            }
        }
        let (h, t) = queue_insert(self.head, self.tail, tcbs, tcb, before, after, true, Ghost(s), Ghost(k));
        self.head = h;
        self.tail = t;
        self.seq = Ghost(s.insert(k, tcb));
    }
    /// Removes thread `tcb` from an endpoint queue.
    pub fn ep_dequeue(&mut self, tcbs: &mut Vec<tcb_t>, tcb: usize)
        requires
            old(self).ep_wf(old(tcbs)@),
            old(self).seq@.contains(tcb),
        ensures
            final(self).ep_wf(final(tcbs)@),
            final(self).seq@ == old(self).seq@.remove_value(tcb),
            final(tcbs).len() == old(tcbs).len(),
            forall|j: int| 0 <= j < final(tcbs).len() ==> same_but_links(#[trigger] final(tcbs)@[j], old(tcbs)@[j], true),
            forall|j: int|
                0 <= j < final(tcbs).len() && j != old(tcbs)@[tcb as int].tcbEPPrev && j != old(tcbs)@[tcb as int].tcbEPNext
                    ==> #[trigger] final(tcbs)@[j] == old(tcbs)@[j],
    {
        let ghost k = self.seq@.index_of(tcb);
        proof {
            self.seq@.index_of_first_ensures(tcb);
            assert(self.seq@.remove_value(tcb) == self.seq@.remove(k));
        }
        let (h, t) = queue_remove(self.head, self.tail, tcbs, tcb, true, Ghost(self.seq@), Ghost(k));
        self.head = h;
        self.tail = t;
        self.seq = Ghost(self.seq@.remove(k));
    }
}


/// Removing a value that was just pushed onto a sequence that lacked it gives the sequence back.
pub proof fn lemma_push_remove_value(s: Seq<usize>, x: usize)
    requires
        !s.contains(x),
    ensures
        s.push(x).remove_value(x) == s,
{
    let u = s.push(x);
    u.index_of_first_ensures(x);
    assert(u[s.len() as int] == x);
    match u.index_of_first(x) {
        Some(i) => {
            if i < s.len() {
                assert(s[i] == x);
            }
            assert(u.remove(i) =~= s);
        },
        None => {},
    }
}


/// Two threads that agree on everything but their endpoint links, and on those links too,
/// are the same.
proof fn lemma_ep_links_determine(a: tcb_t, b: tcb_t)
    requires
        same_but_links(a, b, true),
        a.tcbEPPrev == b.tcbEPPrev,
        a.tcbEPNext == b.tcbEPNext,
    ensures
        a == b,
{
    let sa = strip_links(a, true);
    let sb = strip_links(b, true);
    assert(a == tcb_t { tcbEPPrev: a.tcbEPPrev, tcbEPNext: a.tcbEPNext, ..sa });
    assert(b == tcb_t { tcbEPPrev: b.tcbEPPrev, tcbEPNext: b.tcbEPNext, ..sb });
}

/// Appending a thread to an endpoint queue that lacks it (`ep_append`, from `q0`/`tcbs0` to
/// `q1`/`tcbs1`) and then removing it (`ep_dequeue`, to `q2`/`tcbs2`) gives back the queue,
/// and every other thread as it was.
pub proof fn lemma_ep_append_dequeue(
    q0: tcb_queue_t,
    tcbs0: Seq<tcb_t>,
    q1: tcb_queue_t,
    tcbs1: Seq<tcb_t>,
    q2: tcb_queue_t,
    tcbs2: Seq<tcb_t>,
    t: usize,
)
    requires
        q0.ep_wf(tcbs0),
        0 < t < tcbs0.len(),
        !q0.seq@.contains(t),
        q1.ep_wf(tcbs1),
        q1.seq@ == q0.seq@.push(t),
        tcbs1.len() == tcbs0.len(),
        forall|j: int| 0 <= j < tcbs1.len() ==> same_but_links(#[trigger] tcbs1[j], tcbs0[j], true),
        forall|j: int| 0 <= j < tcbs1.len() && j != t && j != q0.tail ==> #[trigger] tcbs1[j] == tcbs0[j],
        q2.ep_wf(tcbs2),
        q2.seq@ == q1.seq@.remove_value(t),
        tcbs2.len() == tcbs1.len(),
        forall|j: int| 0 <= j < tcbs2.len() ==> same_but_links(#[trigger] tcbs2[j], tcbs1[j], true),
        forall|j: int|
            0 <= j < tcbs2.len() && j != tcbs1[t as int].tcbEPPrev && j != tcbs1[t as int].tcbEPNext
                ==> #[trigger] tcbs2[j] == tcbs1[j],
    ensures
        q2.seq@ == q0.seq@,
        q2.head == q0.head,
        q2.tail == q0.tail,
        forall|j: int| 0 < j < tcbs2.len() && j != t ==> #[trigger] tcbs2[j] == tcbs0[j],
{
    lemma_push_remove_value(q0.seq@, t);
    let s0 = q0.seq@;
    let n = s0.len();
    let s1 = q1.seq@;
    assert(s1[n as int] == t);
    assert(tcbs1[t as int].tcbEPNext == 0);
    assert(tcbs1[t as int].tcbEPPrev == q0.tail);
    assert forall|j: int| 0 < j < tcbs2.len() && j != t implies #[trigger] tcbs2[j] == tcbs0[j] by {
        if j != q0.tail {
            assert(tcbs2[j] == tcbs1[j]);
            assert(tcbs1[j] == tcbs0[j]);
        } else {
            assert(n > 0);
            assert(s0[n - 1] == j);
            assert(strip_links(tcbs2[j], true) == strip_links(tcbs1[j], true));
            assert(strip_links(tcbs1[j], true) == strip_links(tcbs0[j], true));
            assert(tcbs2[s0[n - 1] as int].tcbEPNext == 0);
            assert(tcbs0[s0[n - 1] as int].tcbEPNext == 0);
            assert(tcbs2[s0[n - 1] as int].tcbEPPrev == tcbs0[s0[n - 1] as int].tcbEPPrev);
            lemma_ep_links_determine(tcbs2[j], tcbs0[j]);
        }
    }
}

/// Whether the threads of `s` come in order of non-increasing priority.
pub open spec fn prio_sorted(s: Seq<usize>, tcbs: Seq<tcb_t>) -> bool {
    forall|i: int, j: int|
        0 <= i < j < s.len() ==> tcbs[#[trigger] s[i] as int].tcbPriority >= tcbs[#[trigger] s[j] as int].tcbPriority
}

/// In a queue sorted by priority, the place for a thread of priority `prio` comes after every
/// thread of at least that priority and before every thread of a lower one.
proof fn lemma_prio_insert_pos(s: Seq<usize>, tcbs: Seq<tcb_t>, prio: usize)
    requires
        prio_sorted(s, tcbs),
    ensures
        0 <= prio_insert_pos(s, tcbs, prio) <= s.len(),
        forall|i: int| 0 <= i < prio_insert_pos(s, tcbs, prio) ==> tcbs[#[trigger] s[i] as int].tcbPriority >= prio,
        forall|i: int| prio_insert_pos(s, tcbs, prio) <= i < s.len() ==> tcbs[#[trigger] s[i] as int].tcbPriority < prio,
    decreases s.len(),
{
    if s.len() > 0 {
        let d = s.drop_last();
        if prio > tcbs[s.last() as int].tcbPriority {
            assert forall|i: int, j: int| 0 <= i < j < d.len() implies tcbs[#[trigger] d[i] as int].tcbPriority
                >= tcbs[#[trigger] d[j] as int].tcbPriority by {
                assert(d[i] == s[i] && d[j] == s[j]);
            }
            lemma_prio_insert_pos(d, tcbs, prio);
            let k = prio_insert_pos(d, tcbs, prio);
            assert forall|i: int| 0 <= i < k implies tcbs[#[trigger] s[i] as int].tcbPriority >= prio by {
                assert(d[i] == s[i]);
            }
            assert forall|i: int| k <= i < s.len() implies tcbs[#[trigger] s[i] as int].tcbPriority < prio by {
                if i < d.len() {
                    assert(d[i] == s[i]);
                }
            }
        } else {
            assert forall|i: int| 0 <= i < s.len() implies tcbs[#[trigger] s[i] as int].tcbPriority >= prio by {
                if i < s.len() - 1 {
                    assert(tcbs[s[i] as int].tcbPriority >= tcbs[s[s.len() - 1] as int].tcbPriority);
                }
            }
        }
    }
}

/// Inserting a thread at the place that `prio_insert_pos` gives keeps a sorted queue sorted.
proof fn lemma_insert_sorted(s: Seq<usize>, tcbs: Seq<tcb_t>, t: usize)
    requires
        prio_sorted(s, tcbs),
    ensures
        ({
            let prio = tcbs[t as int].tcbPriority;
            let k = prio_insert_pos(s, tcbs, prio);
            let u = s.insert(k, t);
            &&& 0 <= k <= s.len()
            &&& u[k] == t
            &&& prio_sorted(u, tcbs)
            &&& forall|i: int| 0 <= i < k ==> tcbs[#[trigger] u[i] as int].tcbPriority >= prio
            &&& forall|i: int| k < i < u.len() ==> tcbs[#[trigger] u[i] as int].tcbPriority < prio
        }),
{
    let prio = tcbs[t as int].tcbPriority;
    lemma_prio_insert_pos(s, tcbs, prio);
    let k = prio_insert_pos(s, tcbs, prio);
    let u = s.insert(k, t);
    assert forall|i: int, j: int| 0 <= i < j < u.len() implies tcbs[#[trigger] u[i] as int].tcbPriority
        >= tcbs[#[trigger] u[j] as int].tcbPriority by {
        if i < k {
            assert(u[i] == s[i]);
            if j < k {
                assert(u[j] == s[j]);
            } else if j > k {
                assert(u[j] == s[j - 1]);
            }
        } else if i == k {
            assert(u[j] == s[j - 1]);
        } else {
            assert(u[i] == s[i - 1]);
            assert(u[j] == s[j - 1]);
        }
    }
    assert forall|i: int| 0 <= i < k implies tcbs[#[trigger] u[i] as int].tcbPriority >= prio by {
        assert(u[i] == s[i]);
    }
    assert forall|i: int| k < i < u.len() implies tcbs[#[trigger] u[i] as int].tcbPriority < prio by {
        assert(u[i] == s[i - 1]);
    }
}

/// Putting a thread into an endpoint queue sorted by priority with `ep_append_by_priority`
/// (from `q0`/`tcbs0` to `q1`/`tcbs1`) keeps it sorted, with the thread behind every thread of
/// at least its priority and ahead of every thread of a lower one.
pub proof fn lemma_ep_append_by_priority_sorted(
    q0: tcb_queue_t,
    tcbs0: Seq<tcb_t>,
    q1: tcb_queue_t,
    tcbs1: Seq<tcb_t>,
    t: usize,
)
    requires
        prio_sorted(q0.seq@, tcbs0),
        0 < t < tcbs0.len(),
        q1.seq@ == q0.seq@.insert(prio_insert_pos(q0.seq@, tcbs0, tcbs0[t as int].tcbPriority), t),
        tcbs1.len() == tcbs0.len(),
        forall|j: int| 0 <= j < tcbs1.len() ==> same_but_links(#[trigger] tcbs1[j], tcbs0[j], true),
        q1.ep_wf(tcbs1),
    ensures
        prio_sorted(q1.seq@, tcbs1),
        ({
            let k = prio_insert_pos(q0.seq@, tcbs0, tcbs0[t as int].tcbPriority);
            &&& q1.seq@[k] == t
            &&& forall|i: int| 0 <= i < k ==> tcbs1[#[trigger] q1.seq@[i] as int].tcbPriority >= tcbs1[t as int].tcbPriority
            &&& forall|i: int| k < i < q1.seq@.len() ==> tcbs1[#[trigger] q1.seq@[i] as int].tcbPriority < tcbs1[t as int].tcbPriority
        }),
{
    lemma_insert_sorted(q0.seq@, tcbs0, t);
    let u = q1.seq@;
    assert forall|j: int| 0 <= j < tcbs1.len() implies #[trigger] tcbs1[j].tcbPriority == tcbs0[j].tcbPriority by {
        assert(strip_links(tcbs1[j], true).tcbPriority == strip_links(tcbs0[j], true).tcbPriority);
    }
    assert forall|i: int| 0 <= i < u.len() implies #[trigger] tcbs1[u[i] as int].tcbPriority == tcbs0[u[i] as int].tcbPriority by {
        assert(0 < u[i] < tcbs1.len());
    }
}
} // verus!
