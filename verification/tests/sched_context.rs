use rel4_kernel::notification::notification_t;
use rel4_kernel::sched_context::{
    refill, refill_absolute_max, refill_budget_check, cap_sched_context_cap, sched_context,
    MAX_PERIOD_US, MAX_RELEASE_TIME, MIN_BUDGET, MIN_BUDGET_US,
};

fn context(slots: usize) -> sched_context {
    sched_context {
        scPeriod: 0,
        scConsumed: 0,
        scCore: 0,
        scTcb: 0,
        scReply: 0,
        scNotification: 0,
        scBadge: 0,
        scYieldFrom: 0,
        scRefillMax: 0,
        scRefillHead: 0,
        scRefillTail: 0,
        scSporadic: true,
        refills: vec![refill { rTime: 0, rAmount: 0 }; slots],
    }
}

fn live_refills(sc: &mut sched_context) -> Vec<refill> {
    let mut out = Vec::new();
    let mut i = sc.scRefillHead;
    for _ in 0..sc.refill_size() {
        out.push(sc.refill_index(i));
        i = sc.refill_next(i);
    }
    out
}

fn sum(v: &[refill]) -> u64 {
    v.iter().map(|r| r.rAmount).sum()
}

#[test]
fn budget_constants() {
    assert_eq!(MIN_BUDGET_US(), 20);
    assert_eq!(MIN_BUDGET(), 1250);
    assert_eq!(MAX_PERIOD_US(), (u64::MAX / 62500) / 8);
    assert!(MAX_RELEASE_TIME() > 0);
    let c = cap_sched_context_cap { capSCPtr: 0x8000, capSCSizeBits: 8 };
    assert_eq!(refill_absolute_max(&c), (256 - 96) / 16);
}

#[test]
fn new_round_robin_context_has_empty_tail() {
    let mut sc = context(4);
    sc.refill_new(4, 5000, 0, 100);
    assert!(sc.is_round_robin());
    assert!(sc.sc_active());
    assert_eq!(
        live_refills(&mut sc),
        vec![refill { rTime: 100, rAmount: 5000 }, refill { rTime: 100, rAmount: 0 }]
    );
    assert!(!sc.refill_single());
    assert!(!sc.refill_full());
}

#[test]
fn new_sporadic_context_has_one_refill() {
    let mut sc = context(4);
    sc.refill_new(4, 5000, 10000, 100);
    assert!(!sc.is_round_robin());
    assert!(sc.sc_sporadic());
    assert!(!sc.sc_constant_bandwidth());
    assert_eq!(live_refills(&mut sc), vec![refill { rTime: 100, rAmount: 5000 }]);
    assert!(sc.refill_single());
    assert_eq!(sc.refill_head(), refill { rTime: 100, rAmount: 5000 });
    assert_eq!(sc.refill_tail(), refill { rTime: 100, rAmount: 5000 });
    assert_eq!(sc.refill_capacity(1000), 4000);
    assert_eq!(sc.refill_capacity(6000), 0);
    assert!(sc.refill_sufficient(3750));
    assert!(!sc.refill_sufficient(3751));
    assert!(sc.refill_ready(0));
    assert!(sc.sc_released(0));
}

#[test]
fn ring_wraps_around() {
    let mut sc = context(3);
    sc.refill_new(3, 5000, 10000, 0);
    sc.refill_add_tail(20000, 10);
    sc.refill_add_tail(30000, 20);
    assert!(sc.refill_full());
    assert_eq!(sc.refill_next(2), 0);
    assert_eq!(sc.refill_size(), 3);
}

#[test]
fn budget_check_splits_the_head_and_keeps_the_total() {
    let mut sc = context(4);
    sc.refill_new(4, 5000, 10000, 100);
    refill_budget_check(&mut sc, 2000);
    let v = live_refills(&mut sc);
    assert_eq!(v, vec![refill { rTime: 2100, rAmount: 3000 }, refill { rTime: 10100, rAmount: 2000 }]);
    assert_eq!(sum(&v), 5000);
}

#[test]
fn budget_check_moves_used_up_head_a_period_later() {
    let mut sc = context(4);
    sc.refill_new(4, 3000, 10000, 0);
    sc.refill_add_tail(5000, 2000);
    refill_budget_check(&mut sc, 3000);
    let v = live_refills(&mut sc);
    assert_eq!(v, vec![refill { rTime: 5000, rAmount: 2000 }, refill { rTime: 10000, rAmount: 3000 }]);
    assert_eq!(sum(&v), 5000);
    assert!(sc.refill_head().rAmount >= MIN_BUDGET());
}

#[test]
fn budget_check_merges_a_head_below_the_minimum() {
    let mut sc = context(4);
    sc.refill_new(4, 3000, 10000, 0);
    sc.refill_add_tail(5000, 2000);
    refill_budget_check(&mut sc, 2000);
    // the head keeps 1000 ticks, less than the minimum budget, and is merged into the next refill
    let v = live_refills(&mut sc);
    assert_eq!(sum(&v), 5000);
    assert!(v[0].rAmount >= MIN_BUDGET());
    assert_eq!(v[0], refill { rTime: 4000, rAmount: 3000 });
}

#[test]
fn schedule_used_merges_or_appends() {
    let mut sc = context(4);
    sc.refill_new(4, 3000, 10000, 0);
    sc.schedule_used(2000, 500);
    assert_eq!(live_refills(&mut sc), vec![refill { rTime: 0, rAmount: 3500 }]);
    sc.schedule_used(9000, 700);
    assert_eq!(
        live_refills(&mut sc),
        vec![refill { rTime: 0, rAmount: 3500 }, refill { rTime: 9000, rAmount: 700 }]
    );
}

#[test]
fn unblock_check_merges_overlapping_refills() {
    let mut sc = context(4);
    sc.refill_new(4, 2000, 10000, 0);
    sc.refill_add_tail(1500, 1000);
    assert!(sc.refill_head_overlapping());
    assert!(sc.refill_unblock_check(1000));
    assert_eq!(live_refills(&mut sc), vec![refill { rTime: 1000, rAmount: 3000 }]);
}

#[test]
fn unblock_check_waits_for_future_refill() {
    let mut sc = context(4);
    sc.refill_new(4, 2000, 10000, 50000);
    assert!(!sc.refill_unblock_check(1000));
    assert_eq!(live_refills(&mut sc), vec![refill { rTime: 50000, rAmount: 2000 }]);
}

#[test]
fn consumed_time_is_reported_in_microseconds() {
    let mut sc = context(2);
    sc.scConsumed = 62500;
    assert_eq!(sc.schedContext_updateConsumed(), 1000);
    assert_eq!(sc.scConsumed, 0);
}

#[test]
fn refill_update_trims_head() {
    let mut sc = context(4);
    sc.refill_new(4, 5000, 10000, 0);
    sc.refill_update(20000, 3000, 4, 100);
    assert_eq!(sc.scPeriod, 20000);
    assert_eq!(sc.scRefillMax, 4);
    assert_eq!(live_refills(&mut sc), vec![refill { rTime: 100, rAmount: 3000 }]);
}

#[test]
fn notification_binding_of_context() {
    let mut sc = context(2);
    let mut ntfns = vec![
        notification_t { state: 0, ntfnQueue_head: 0, ntfnQueue_tail: 0, ntfnMsgIdentifier: 0, ntfnBoundTCB: 0, ntfnSchedContext: 0 };
        3
    ];
    sc.schedContext_bindNtfn(0x900, &mut ntfns[1], 1);
    assert_eq!(sc.scNotification, 1);
    assert_eq!(ntfns[1].ntfnSchedContext, 0x900);
    sc.schedContext_unbindNtfn(&mut ntfns);
    assert_eq!(sc.scNotification, 0);
    assert_eq!(ntfns[1].ntfnSchedContext, 0);
}

#[test]
fn configuration_chooses_how_to_refill() {
    // Equal budget and period: round robin with the fewest refills.
    let mut sc = context(8);
    sc.configure_refills(5000, 5000, 6, 9, 0, false, 100);
    assert_eq!((sc.scPeriod, sc.scRefillMax, sc.scBadge, sc.scSporadic), (0, 2, 9, false));
    assert_eq!(
        live_refills(&mut sc),
        vec![refill { rTime: 100, rAmount: 5000 }, refill { rTime: 100, rAmount: 0 }]
    );

    // An inactive context gets a fresh sporadic ring.
    let mut sc = context(8);
    sc.configure_refills(2000, 5000, 6, 1, 1, true, 100);
    assert_eq!((sc.scPeriod, sc.scRefillMax, sc.scRefillHead, sc.scSporadic), (5000, 6, 0, true));
    assert_eq!(live_refills(&mut sc), vec![refill { rTime: 100, rAmount: 2000 }]);

    // An active context of a runnable thread keeps its head refill, trimmed to the budget.
    let mut sc = context(8);
    sc.refill_new(4, 3000, 6000, 50);
    sc.scTcb = 7;
    sc.configure_refills(2000, 5000, 6, 1, 0, true, 10_000);
    assert_eq!((sc.scPeriod, sc.scRefillMax), (5000, 6));
    assert_eq!(live_refills(&mut sc), vec![refill { rTime: 10_000, rAmount: 2000 }]);

    // The same context with a thread that cannot run starts afresh.
    let mut sc = context(8);
    sc.refill_new(4, 3000, 6000, 50);
    sc.scTcb = 7;
    sc.configure_refills(2000, 5000, 6, 1, 0, false, 10_000);
    assert_eq!(live_refills(&mut sc), vec![refill { rTime: 10_000, rAmount: 2000 }]);
    assert_eq!(sc.scRefillMax, 6);
}
