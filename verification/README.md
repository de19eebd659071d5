# rel4_kernel

The logic of a small seL4-style microkernel, written in Verus: every function carries a
contract that Verus proves, and the kernel-wide invariants (well-formed ready queues and
priority bitmaps, scheduling-context refill rings) are preserved by every operation.

Kernel objects live in arenas indexed by their pointers: `KernelState::tcbs` holds the thread
control blocks (pointers 0 and 1 are never threads), and notifications are passed as vectors
indexed the same way. Machine registers, IPC buffers and capability slots are plain fields of
a thread.

## Layout

- `config`, `utils`, `structures`: configuration constants, bit helpers, rights.
- `arch_aarch64`, `arch_riscv64`: object types and timer conversions of the two platforms.
- `cap`: capabilities, their regions, derivation and rights masking.
- `fault`, `message_info`: faults, lookup failures, thread states, message labels and words.
- `tcb`: registers, IPC buffers, message registers and fault messages of a thread.
- `tcb_queue`, `bitmap`, `scheduler`: intrusive thread queues, the two-level priority
  bitmap, and the scheduler (ready queues, thread choice, time slices, domains).
- `sched_context`: scheduling contexts, their circular buffer of budget refills, and how a
  new budget and period are put into it.
- `notification`, `reply`, `transfer`, `syscall_utils`: notification binding, reply objects,
  fault and signal delivery, the lookup of a message's extra capabilities, system-call
  arguments and their checks.
- `invocation`: decoding of invocations on threads (priorities, maximum controlled
  priorities, the thread-local storage base, notification binding, suspension, resumption,
  register writes and copies, configuration, IPC buffer and spaces), domains, interrupt
  control and interrupt handlers, the scheduling-control and scheduling-context capabilities, yielding and the
  page get-address call. Where the invoked operation belongs to code outside the library
  (endpoints, the CSpace, the VSpace), the decoder returns it as an outcome value.
- `finalise`: what finalising a capability leaves behind and which cleanup it asks for.
- `fastpath`: the checks that decide whether a call or a reply-and-receive takes the IPC
  fast path, and its guarded walk through CNodes.
- `syscall`: which handler a system-call number asks for, the yield, and the scheduling that
  ends every system call (`handleSyscall`).
- `boot`: address arithmetic of the boot regions in the kernel window, the sizing of the
  extra boot information and of the device-tree region, and the initial scheduler state.

Laws that relate several operations are public proof functions, for instance
`scheduler::lemma_sched_enqueue_dequeue`, `tcb_queue::lemma_ep_append_dequeue`,
`cap::lemma_mask_cap_rights_idempotent`, `scheduler::lemma_bitmaps_determined`,
`tcb_queue::lemma_ep_append_by_priority_sorted`, `sched_context::lemma_refill_new_chargeable`
and `arch_aarch64::lemma_us_ticks_roundtrip`.

The tests under `tests/` run the library on concrete kernel states.
