use rel4_kernel::cap::cap;
use rel4_kernel::finalise::{finaliseCap, finaliseCap_ret, FinaliseWork, Zombie_new};

fn nothing_left() -> finaliseCap_ret {
    finaliseCap_ret { remainder: cap::null_cap, cleanupInfo: cap::null_cap }
}

#[test]
fn finalising_ipc_objects_cancels_their_waiters() {
    let ep = cap::endpoint_cap { capEPBadge: 0, capCanGrantReply: 0, capCanGrant: 0, capCanSend: 1, capCanReceive: 1, capEPPtr: 0x900 };
    assert_eq!(finaliseCap(&ep, true, true), (nothing_left(), FinaliseWork::CancelAllIPC { ep: 0x900 }));
    assert_eq!(finaliseCap(&ep, false, true), (nothing_left(), FinaliseWork::Nothing));
    let ntfn = cap::notification_cap { capNtfnBadge: 0, capNtfnCanReceive: 1, capNtfnCanSend: 1, capNtfnPtr: 0xa00 };
    assert_eq!(finaliseCap(&ntfn, true, false), (nothing_left(), FinaliseWork::CancelAllSignals { ntfn: 0xa00 }));
    assert_eq!(finaliseCap(&cap::domain_cap, true, true), (nothing_left(), FinaliseWork::Nothing));
}

#[test]
fn finalising_containers_leaves_zombies() {
    let cnode = cap::cnode_cap { capCNodeRadix: 4, capCNodeGuardSize: 0, capCNodeGuard: 0, capCNodePtr: 0x10000 };
    let (ret, work) = finaliseCap(&cnode, true, false);
    assert_eq!(ret.remainder, cap::zombie_cap { capZombieID: 0x10010, capZombieType: 4 });
    assert_eq!(ret.cleanupInfo, cap::null_cap);
    assert_eq!(work, FinaliseWork::Nothing);
    assert_eq!(finaliseCap(&cnode, false, false), (nothing_left(), FinaliseWork::Nothing));

    let thread = cap::thread_cap { capTCBPtr: 0x8100 };
    let (ret, work) = finaliseCap(&thread, true, false);
    assert_eq!(ret.remainder, cap::zombie_cap { capZombieID: 0x8005, capZombieType: 128 });
    assert_eq!(work, FinaliseWork::TeardownThread { tcb: 0x8100 });
    assert_eq!(Zombie_new(5, 128, 0x8000), ret.remainder);

    let z = cap::zombie_cap { capZombieID: 0x8005, capZombieType: 128 };
    assert_eq!(finaliseCap(&z, true, false), (finaliseCap_ret { remainder: z, cleanupInfo: cap::null_cap }, FinaliseWork::Nothing));
}

#[test]
fn finalising_irq_handlers_and_arch_caps() {
    let h = cap::irq_handler_cap { capIRQ: 9 };
    assert_eq!(
        finaliseCap(&h, true, false),
        (finaliseCap_ret { remainder: cap::null_cap, cleanupInfo: h }, FinaliseWork::DeletingIRQHandler { irq: 9 })
    );
    assert_eq!(finaliseCap(&h, false, false), (nothing_left(), FinaliseWork::Nothing));
    let f = cap::frame_cap {
        capFMappedASID: 1,
        capFBasePtr: 0x1000,
        capFSize: 0,
        capFMappedAddress: 0x40_0000,
        capFVMRights: 3,
        capFIsDevice: 0,
    };
    assert_eq!(finaliseCap(&f, true, true), (nothing_left(), FinaliseWork::Arch { capability: f, is_final: true }));
}
