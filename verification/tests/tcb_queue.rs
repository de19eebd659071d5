use rel4_kernel::cap::{cap, cte_t, mdb_node_t};
use rel4_kernel::fault::{lookup_fault, seL4_Fault, thread_state_t, ThreadState};
use rel4_kernel::tcb::{seL4_IPCBuffer, tcb_t, ArchTCB};
use rel4_kernel::tcb_queue::tcb_queue_t;

fn thread() -> tcb_t {
    let mut cspace = Vec::new();
    for _ in 0..5 {
        cspace.push(cte_t { capability: cap::null_cap, cteMDBNode: mdb_node_t::new(0, 0, 0, 0) });
    }
    tcb_t {
        tcbArch: ArchTCB::default(),
        tcbState: thread_state_t {
            tsType: ThreadState::ThreadStateBlockedOnSend,
            tcbQueued: 0,
            blockingObject: 0,
            replyObject: 0,
        },
        tcbBoundNotification: 0,
        tcbFault: seL4_Fault::seL4_Fault_NullFault,
        tcbLookupFailure: lookup_fault::invalid_root,
        domain: 0,
        tcbMCP: 0,
        tcbPriority: 0,
        tcbTimeSlice: 5,
        tcbFaultHandler: 0,
        tcbIPCBuffer: 0,
        tcbSchedNext: 0,
        tcbSchedPrev: 0,
        tcbEPNext: 0,
        tcbEPPrev: 0,
        cspace,
        ipcBuffer: seL4_IPCBuffer::new(),
    }
}

fn order(q: &tcb_queue_t, tcbs: &[tcb_t]) -> Vec<usize> {
    let mut out = Vec::new();
    let mut t = q.head;
    while t != 0 {
        out.push(t);
        t = tcbs[t].tcbEPNext;
    }
    out
}

#[test]
fn endpoint_queue_append_and_dequeue() {
    let mut tcbs: Vec<tcb_t> = (0..5).map(|_| thread()).collect();
    let mut q = tcb_queue_t::new();
    assert!(q.empty());
    q.ep_append(&mut tcbs, 1);
    q.ep_append(&mut tcbs, 2);
    q.ep_append(&mut tcbs, 3);
    assert!(!q.empty());
    assert_eq!(order(&q, &tcbs), vec![1, 2, 3]);
    assert_eq!(q.tail, 3);
    assert_eq!(tcbs[3].tcbEPPrev, 2);
    q.ep_dequeue(&mut tcbs, 2);
    assert_eq!(order(&q, &tcbs), vec![1, 3]);
    assert_eq!(tcbs[3].tcbEPPrev, 1);
    q.ep_dequeue(&mut tcbs, 1);
    assert_eq!(q.head, 3);
    q.ep_dequeue(&mut tcbs, 3);
    assert!(q.empty());
    assert_eq!(q.tail, 0);
}

#[test]
fn append_then_dequeue_gives_back_the_queue() {
    let mut tcbs: Vec<tcb_t> = (0..5).map(|_| thread()).collect();
    let mut q = tcb_queue_t::new();
    q.ep_append(&mut tcbs, 1);
    q.ep_append(&mut tcbs, 2);
    let (head, tail) = (q.head, q.tail);
    let links = |tcbs: &Vec<tcb_t>| -> Vec<(usize, usize)> { tcbs.iter().map(|t| (t.tcbEPPrev, t.tcbEPNext)).collect() };
    let before = links(&tcbs);
    q.ep_append(&mut tcbs, 4);
    assert_eq!(tcbs[2].tcbEPNext, 4);
    q.ep_dequeue(&mut tcbs, 4);
    assert_eq!((q.head, q.tail), (head, tail));
    assert_eq!(order(&q, &tcbs), vec![1, 2]);
    assert_eq!(tcbs[2].tcbEPNext, 0);
    let after = links(&tcbs);
    for j in [1, 2, 3] {
        assert_eq!(after[j], before[j]);
    }
}

#[test]
fn endpoint_queue_in_priority_order() {
    let mut tcbs: Vec<tcb_t> = (0..7).map(|_| thread()).collect();
    let prios = [0, 0, 10, 5, 7, 20, 5];
    for (i, p) in prios.iter().enumerate() {
        tcbs[i].tcbPriority = *p;
    }
    let mut q = tcb_queue_t::new();
    q.ep_append_by_priority(&mut tcbs, 2);
    q.ep_append_by_priority(&mut tcbs, 3);
    assert_eq!(order(&q, &tcbs), vec![2, 3]);
    q.ep_append_by_priority(&mut tcbs, 4);
    assert_eq!(order(&q, &tcbs), vec![2, 4, 3]);
    q.ep_append_by_priority(&mut tcbs, 5);
    assert_eq!(order(&q, &tcbs), vec![5, 2, 4, 3]);
    q.ep_append_by_priority(&mut tcbs, 6);
    assert_eq!(order(&q, &tcbs), vec![5, 2, 4, 3, 6]);
    assert_eq!(q.head, 5);
    assert_eq!(q.tail, 6);
    assert_eq!(tcbs[4].tcbEPPrev, 2);
    assert_eq!(tcbs[2].tcbEPPrev, 5);
    assert_eq!(tcbs[5].tcbEPPrev, 0);
}
