//! The thread scheduler: a fixed table of thread slots, handed out in slot
//! order, and the decisions of the supervisor and worker cores.
use vstd::prelude::*;
use super::thread::{Thread, ThreadState, empty_thread};

verus! {

/// Number of thread slots in the scheduler's table.
pub const MAX_THREADS: usize = 64;

/// Abstract state of the scheduler: its slots, the number of threads ever
/// spawned, and the number of timer ticks seen.
pub struct SchedulerModel {
    pub slots: Seq<Thread>,
    pub thread_count: u64,
    pub ticks: u64,
}

/// The first slot at or after `i` whose thread is in state `st`.
pub open spec fn first_slot_from(slots: Seq<Thread>, st: ThreadState, i: nat) -> Option<nat>
    decreases slots.len() - i,
{
    if i >= slots.len() {
        None
    } else if slots[i as int].state == st {
        Some(i)
    } else {
        first_slot_from(slots, st, i + 1)
    }
}

/// The first slot of the table whose thread is in state `st`.
pub open spec fn first_slot(slots: Seq<Thread>, st: ThreadState) -> Option<nat> {
    first_slot_from(slots, st, 0)
}

/// The thread that a spawn places in a free slot.
pub open spec fn spawned_thread(tid: u64, process_id: u64, stack_pointer: u64, instruction_pointer: u64) -> Thread {
    Thread {
        id: tid,
        parent_process_id: process_id,
        state: ThreadState::Ready,
        stack_pointer,
        instruction_pointer,
    }
}

impl SchedulerModel {
    /// Spawning: the first empty slot receives a Ready thread whose identifier
    /// is one more than the number of threads spawned so far; with no empty
    /// slot nothing changes and no identifier is returned.
    pub open spec fn spawn(self, process_id: u64, stack_pointer: u64, instruction_pointer: u64) -> (
        SchedulerModel,
        Option<u64>,
    ) {
        match first_slot(self.slots, ThreadState::Empty) {
            None => (self, None),
            Some(i) => {
                let tid = (self.thread_count + 1) as u64;
                (
                    SchedulerModel {
                        slots: self.slots.update(
                            i as int,
                            spawned_thread(tid, process_id, stack_pointer, instruction_pointer),
                        ),
                        thread_count: tid,
                        ticks: self.ticks,
                    },
                    Some(tid),
                )
            },
        }
    }

    /// Dispatching: the first Ready thread becomes Running and its
    /// (instruction pointer, stack pointer) is handed out.
    pub open spec fn pop(self) -> (SchedulerModel, Option<(u64, u64)>) {
        match first_slot(self.slots, ThreadState::Ready) {
            None => (self, None),
            Some(i) => {
                let t = self.slots[i as int];
                (
                    SchedulerModel {
                        slots: self.slots.update(i as int, Thread { state: ThreadState::Running, ..t }),
                        ..self
                    },
                    Some((t.instruction_pointer, t.stack_pointer)),
                )
            },
        }
    }

    /// Whether a spawn from this state would overflow the thread counter.
    pub open spec fn spawn_overflows(self) -> bool {
        first_slot(self.slots, ThreadState::Empty) is Some && self.thread_count == u64::MAX
    }

    /// Every live thread carries an identifier between 1 and the number of
    /// threads spawned, and no two live threads share one.
    pub open spec fn wf(self) -> bool {
        &&& self.slots.len() == MAX_THREADS
        &&& forall|i: int|
            0 <= i < self.slots.len() && (#[trigger] self.slots[i]).state != ThreadState::Empty
                ==> 1 <= self.slots[i].id <= self.thread_count
        &&& forall|i: int, j: int|
            0 <= i < self.slots.len() && 0 <= j < self.slots.len() && i != j
                && (#[trigger] self.slots[i]).state != ThreadState::Empty
                && (#[trigger] self.slots[j]).state != ThreadState::Empty ==> self.slots[i].id
                != self.slots[j].id
    }
}

/// The scheduler: a table of thread slots and two counters.
pub struct Scheduler {
    threads: [Thread; MAX_THREADS],
    pub thread_count: u64,
    pub ticks: u64,
}

impl View for Scheduler {
    type V = SchedulerModel;

    closed spec fn view(&self) -> SchedulerModel {
        SchedulerModel { slots: self.threads@, thread_count: self.thread_count, ticks: self.ticks }
    }
}

proof fn lemma_first_slot_found(slots: Seq<Thread>, st: ThreadState, i: nat)
    requires
        i < slots.len(),
        slots[i as int].state == st,
        forall|j: int| 0 <= j < i ==> slots[j].state != st,
    ensures
        first_slot(slots, st) == Some(i),
    decreases i,
{
    lemma_first_slot_skip(slots, st, 0, i);
}

proof fn lemma_first_slot_skip(slots: Seq<Thread>, st: ThreadState, k: nat, i: nat)
    requires
        k <= i,
        forall|j: int| k <= j < i ==> slots[j].state != st,
    ensures
        first_slot_from(slots, st, k) == first_slot_from(slots, st, i),
    decreases i - k,
{
    if k < i {
        lemma_first_slot_skip(slots, st, k + 1, i);
    }
}

proof fn lemma_first_slot_bounds(slots: Seq<Thread>, st: ThreadState, k: nat)
    ensures
        first_slot_from(slots, st, k) matches Some(i) ==> k <= i < slots.len() && slots[i as int].state == st,
        first_slot_from(slots, st, k) is None ==> forall|j: int| k <= j < slots.len() ==> slots[j].state != st,
    decreases slots.len() - k,
{
    if k < slots.len() {
        lemma_first_slot_bounds(slots, st, k + 1);
    }
}

impl Scheduler {
    /// The number of threads spawned so far.
    pub fn thread_count(&self) -> (r: u64)
        ensures
            r == self@.thread_count,
    {
        self.thread_count
    }

    /// The number of timer ticks seen so far.
    pub fn ticks(&self) -> (r: u64)
        ensures
            r == self@.ticks,
    {
        self.ticks
    }

    /// The thread in slot `i`.
    pub fn thread(&self, i: usize) -> (t: Thread)
        requires
            i < MAX_THREADS,
        ensures
            t == self@.slots[i as int],
    {
        self.threads[i]
    }

    /// A scheduler with every slot empty and both counters at zero.
    pub fn new() -> (s: Self)
        ensures
            s@.slots == Seq::new(MAX_THREADS as nat, |i: int| empty_thread()),
            s@.thread_count == 0,
            s@.ticks == 0,
            s@.wf(),
    {
        let s = Scheduler { threads: [Thread::empty(); MAX_THREADS], thread_count: 0, ticks: 0 };
        assert(s@.slots =~= Seq::new(MAX_THREADS as nat, |i: int| empty_thread()));
        s
    }

    /// Places a new Ready thread in the first empty slot and returns its
    /// identifier, or `None` when every slot is taken.
    pub fn spawn_thread(&mut self, process_id: u64, stack_pointer: u64, instruction_pointer: u64) -> (r: Option<u64>)
        requires
            !old(self)@.spawn_overflows(),
        ensures
            (final(self)@, r) == old(self)@.spawn(process_id, stack_pointer, instruction_pointer),
            old(self)@.wf() ==> final(self)@.wf(),
    {
        let ghost s0 = self@;
        proof {
            lemma_first_slot_bounds(s0.slots, ThreadState::Empty, 0);
        }
        let mut i: usize = 0;
        while i < MAX_THREADS
            invariant
                0 <= i <= MAX_THREADS,
                self@ == s0,
                s0 == old(self)@,
                !s0.spawn_overflows(),
                forall|j: int| 0 <= j < i ==> s0.slots[j].state != ThreadState::Empty,
            decreases MAX_THREADS - i,
        {
            if self.threads[i].state == ThreadState::Empty {
                proof {
                    lemma_first_slot_found(s0.slots, ThreadState::Empty, i as nat);
                }
                self.thread_count += 1;
                let tid = self.thread_count;
                self.threads[i] = Thread {
                    id: tid,
                    parent_process_id: process_id,
                    state: ThreadState::Ready,
                    stack_pointer,
                    instruction_pointer,
                };
                proof {
                    let s1 = s0.spawn(process_id, stack_pointer, instruction_pointer).0;
                    assert(self@.slots =~= s1.slots);
                    assert(self@ == s1);
                    if s0.wf() {
                        assert forall|a: int|
                            0 <= a < self@.slots.len() && (#[trigger] self@.slots[a]).state
                                != ThreadState::Empty implies 1 <= self@.slots[a].id
                            <= self@.thread_count by {
                            if a != i {
                                assert(self@.slots[a] == s0.slots[a]);
                            }
                        }
                        assert forall|a: int, b: int|
                            0 <= a < self@.slots.len() && 0 <= b < self@.slots.len() && a != b
                                && (#[trigger] self@.slots[a]).state != ThreadState::Empty
                                && (#[trigger] self@.slots[b]).state
                                != ThreadState::Empty implies self@.slots[a].id
                            != self@.slots[b].id by {
                            if a != i && b != i {
                                assert(self@.slots[a] == s0.slots[a]);
                                assert(self@.slots[b] == s0.slots[b]);
                            } else if a == i {
                                assert(self@.slots[b] == s0.slots[b]);
                            } else {
                                assert(self@.slots[a] == s0.slots[a]);
                            }
                        }
                    }
                }
                return Some(tid);
            }
            i += 1;
        }
        proof {
            lemma_first_slot_skip(s0.slots, ThreadState::Empty, 0, MAX_THREADS as nat);
        }
        None
    }

    /// Marks the first Ready thread Running and returns its
    /// (instruction pointer, stack pointer), or `None` when no thread is Ready.
    pub fn pop_ready_thread(&mut self) -> (r: Option<(u64, u64)>)
        ensures
            (final(self)@, r) == old(self)@.pop(),
            old(self)@.wf() ==> final(self)@.wf(),
    {
        let ghost s0 = self@;
        let mut i: usize = 0;
        while i < MAX_THREADS
            invariant
                0 <= i <= MAX_THREADS,
                self@ == s0,
                s0 == old(self)@,
                forall|j: int| 0 <= j < i ==> s0.slots[j].state != ThreadState::Ready,
            decreases MAX_THREADS - i,
        {
            if self.threads[i].state == ThreadState::Ready {
                proof {
                    lemma_first_slot_found(s0.slots, ThreadState::Ready, i as nat);
                }
                let t = self.threads[i];
                self.threads[i] = Thread { state: ThreadState::Running, ..t };
                proof {
                    let s1 = s0.pop().0;
                    assert(self@.slots =~= s1.slots);
                    assert(self@ == s1);
                    if s0.wf() {
                        assert forall|a: int|
                            0 <= a < self@.slots.len() && (#[trigger] self@.slots[a]).state
                                != ThreadState::Empty implies 1 <= self@.slots[a].id
                            <= self@.thread_count by {
                            if a != i {
                                assert(self@.slots[a] == s0.slots[a]);
                            }
                        }
                        assert forall|a: int, b: int|
                            0 <= a < self@.slots.len() && 0 <= b < self@.slots.len() && a != b
                                && (#[trigger] self@.slots[a]).state != ThreadState::Empty
                                && (#[trigger] self@.slots[b]).state
                                != ThreadState::Empty implies self@.slots[a].id
                            != self@.slots[b].id by {
                            assert(s0.slots[a].state != ThreadState::Empty);
                            assert(s0.slots[b].state != ThreadState::Empty);
                        }
                    }
                }
                return Some((t.instruction_pointer, t.stack_pointer));
            }
            i += 1;
        }
        proof {
            lemma_first_slot_skip(s0.slots, ThreadState::Ready, 0, MAX_THREADS as nat);
        }
        None
    }

    /// Counts one timer tick.
    pub fn tick(&mut self)
        requires
            old(self)@.ticks < u64::MAX,
        ensures
            final(self)@ == (SchedulerModel { ticks: (old(self)@.ticks + 1) as u64, ..old(self)@ }),
    {
        self.ticks += 1;
    }
}

/// Spawns a thread of the userland process (PID 1) on the scheduler.
pub fn spawn_thread(sched: &mut Scheduler, entry_point: u64, stack_ptr: u64)
    requires
        !old(sched)@.spawn_overflows(),
    ensures
        final(sched)@ == old(sched)@.spawn(1, stack_ptr, entry_point).0,
{
    let _ = sched.spawn_thread(1, stack_ptr, entry_point);
}

/// Whether a spawn from `s` would overflow its thread counter; a caller tests
/// this before spawning.
pub fn spawn_would_overflow(sched: &Scheduler) -> (r: bool)
    ensures
        r == sched@.spawn_overflows(),
{
    let ghost s0 = sched@;
    proof {
        lemma_first_slot_bounds(s0.slots, ThreadState::Empty, 0);
    }
    if sched.thread_count < u64::MAX {
        return false;
    }
    let mut i: usize = 0;
    while i < MAX_THREADS
        invariant
            0 <= i <= MAX_THREADS,
            sched@ == s0,
            s0.thread_count == u64::MAX,
            forall|j: int| 0 <= j < i ==> s0.slots[j].state != ThreadState::Empty,
        decreases MAX_THREADS - i,
    {
        if sched.threads[i].state == ThreadState::Empty {
            proof {
                lemma_first_slot_found(s0.slots, ThreadState::Empty, i as nat);
            }
            return true;
        }
        i += 1;
    }
    proof {
        lemma_first_slot_skip(s0.slots, ThreadState::Empty, 0, MAX_THREADS as nat);
    }
    false
}

proof fn lemma_first_slot_minimal(slots: Seq<Thread>, st: ThreadState, k: nat)
    ensures
        first_slot_from(slots, st, k) matches Some(i) ==> forall|j: int| k <= j < i ==> slots[j].state != st,
    decreases slots.len() - k,
{
    if k < slots.len() {
        lemma_first_slot_minimal(slots, st, k + 1);
    }
}

/// What a spawn does: when it returns an identifier, that identifier is one
/// more than the number of threads spawned before, and the first empty slot
/// now holds a Ready thread of the given process with the given stack and
/// instruction pointers; every other slot and the tick count are unchanged.
/// When it returns nothing, every slot was taken and nothing changes. (A
/// spawn is only made while the counter can still count it.)
pub proof fn lemma_spawn_fills_first_empty_slot(s: SchedulerModel, process_id: u64, stack_pointer: u64, instruction_pointer: u64)
    requires
        !s.spawn_overflows(),
    ensures
        ({
            let (n, r) = s.spawn(process_id, stack_pointer, instruction_pointer);
            &&& r matches Some(tid) ==> {
                &&& tid == s.thread_count + 1
                &&& n.thread_count == tid
                &&& n.ticks == s.ticks
                &&& exists|i: int|
                    #![trigger s.slots[i]]
                    0 <= i < s.slots.len() && s.slots[i].state == ThreadState::Empty && (forall|j: int|
                        0 <= j < i ==> s.slots[j].state != ThreadState::Empty) && n.slots == s.slots.update(
                        i,
                        Thread {
                            id: tid,
                            parent_process_id: process_id,
                            state: ThreadState::Ready,
                            stack_pointer,
                            instruction_pointer,
                        },
                    )
            }
            &&& r is None ==> n == s && forall|j: int| 0 <= j < s.slots.len() ==> s.slots[j].state != ThreadState::Empty
        }),
{
    lemma_first_slot_bounds(s.slots, ThreadState::Empty, 0);
    if let Some(i) = first_slot(s.slots, ThreadState::Empty) {
        lemma_first_slot_minimal(s.slots, ThreadState::Empty, 0);
        assert(s.slots[i as int].state == ThreadState::Empty);
    }
}

/// What a dispatch does: when it hands out (instruction pointer, stack
/// pointer), these are the pointers of the first Ready slot, which is now
/// Running with everything else about it unchanged; no other slot and no
/// counter changes. When it hands out nothing, no slot was Ready and nothing
/// changes.
pub proof fn lemma_pop_takes_first_ready_slot(s: SchedulerModel)
    ensures
        ({
            let (n, r) = s.pop();
            &&& r matches Some(pointers) ==> {
                &&& n.thread_count == s.thread_count
                &&& n.ticks == s.ticks
                &&& exists|i: int|
                    #![trigger s.slots[i]]
                    0 <= i < s.slots.len() && s.slots[i].state == ThreadState::Ready && (forall|j: int|
                        0 <= j < i ==> s.slots[j].state != ThreadState::Ready) && pointers == (
                        s.slots[i].instruction_pointer,
                        s.slots[i].stack_pointer,
                    ) && n.slots == s.slots.update(
                        i,
                        Thread {
                            id: s.slots[i].id,
                            parent_process_id: s.slots[i].parent_process_id,
                            state: ThreadState::Running,
                            stack_pointer: s.slots[i].stack_pointer,
                            instruction_pointer: s.slots[i].instruction_pointer,
                        },
                    )
            }
            &&& r is None ==> n == s && forall|j: int| 0 <= j < s.slots.len() ==> s.slots[j].state != ThreadState::Ready
        }),
{
    lemma_first_slot_bounds(s.slots, ThreadState::Ready, 0);
    if let Some(i) = first_slot(s.slots, ThreadState::Ready) {
        lemma_first_slot_minimal(s.slots, ThreadState::Ready, 0);
        assert(s.slots[i as int].state == ThreadState::Ready);
    }
}

/// A spawned thread is handed out by the next dispatch when no other thread
/// was waiting: spawning into a scheduler with no Ready thread and then
/// popping yields the spawned thread's entry point and stack.
pub proof fn lemma_spawn_then_pop(s: SchedulerModel, process_id: u64, stack_pointer: u64, instruction_pointer: u64)
    requires
        first_slot(s.slots, ThreadState::Ready) is None,
        s.spawn(process_id, stack_pointer, instruction_pointer).1 is Some,
    ensures
        s.spawn(process_id, stack_pointer, instruction_pointer).0.pop().1 == Some(
            (instruction_pointer, stack_pointer),
        ),
{
    let s1 = s.spawn(process_id, stack_pointer, instruction_pointer).0;
    lemma_first_slot_bounds(s.slots, ThreadState::Empty, 0);
    lemma_first_slot_bounds(s.slots, ThreadState::Ready, 0);
    let i = first_slot(s.slots, ThreadState::Empty).unwrap();
    assert(s1.slots[i as int].state == ThreadState::Ready);
    assert forall|j: int| 0 <= j < i implies s1.slots[j].state != ThreadState::Ready by {
        assert(s1.slots[j] == s.slots[j]);
    }
    lemma_first_slot_found(s1.slots, ThreadState::Ready, i);
}

/// A spawned thread's identifier is fresh: no live thread already had it.
pub proof fn lemma_spawned_id_is_fresh(s: SchedulerModel, process_id: u64, stack_pointer: u64, instruction_pointer: u64, j: int)
    requires
        s.wf(),
        !s.spawn_overflows(),
        s.spawn(process_id, stack_pointer, instruction_pointer).1 is Some,
        0 <= j < s.slots.len(),
        s.slots[j].state != ThreadState::Empty,
    ensures
        s.spawn(process_id, stack_pointer, instruction_pointer).1 != Some(s.slots[j].id),
{
}

/// Spawning fails exactly when every slot of the table holds a thread.
pub proof fn lemma_spawn_fails_iff_full(s: SchedulerModel, process_id: u64, stack_pointer: u64, instruction_pointer: u64)
    ensures
        s.spawn(process_id, stack_pointer, instruction_pointer).1 is None <==> (forall|j: int|
            0 <= j < s.slots.len() ==> s.slots[j].state != ThreadState::Empty),
{
    lemma_first_slot_bounds(s.slots, ThreadState::Empty, 0);
}

/// A dispatched thread is no longer Ready: dispatching twice never hands out
/// the same slot twice.
pub proof fn lemma_popped_thread_leaves_ready(s: SchedulerModel)
    requires
        s.pop().1 is Some,
    ensures
        ({
            let i = first_slot(s.slots, ThreadState::Ready).unwrap();
            &&& s.pop().0.slots[i as int].state == ThreadState::Running
            &&& first_slot(s.pop().0.slots, ThreadState::Ready) != Some(i)
        }),
{
    lemma_first_slot_bounds(s.slots, ThreadState::Ready, 0);
    let s1 = s.pop().0;
    lemma_first_slot_bounds(s1.slots, ThreadState::Ready, 0);
}

/// Role that a core takes once the kernel has booted.
#[derive(Debug, PartialEq, Eq, Structural)]
pub enum CpuRole {
    ControlPlane,
    ComputeNode,
}

/// Stack top of the first userland process.
pub const GOD_STACK: u64 = 0x0000_7FFF_FFFF_0000;

/// Virtual address whose translation the supervisor shoots down on request.
pub const SHOOTDOWN_TARGET_VADDR: u64 = 0x4000_1000;

/// What the supervisor core does with a message found in its mailbox.
#[derive(Debug, PartialEq, Eq, Structural)]
pub enum SupervisorAction {
    /// Empty mailbox: keep waiting.
    Idle,
    /// Message 1: acknowledge the handshake.
    Handshake,
    /// Message 2: broadcast a TLB shootdown for `vaddr` to the cores in `cpu_mask`.
    TlbShootdown { vaddr: u64, cpu_mask: u32 },
    /// Any other message is dropped.
    Ignore,
}

/// The supervisor's response to a mailbox message.
pub fn supervisor_action(msg: u64) -> (a: SupervisorAction)
    ensures
        msg == 0 ==> a == SupervisorAction::Idle,
        msg == 1 ==> a == SupervisorAction::Handshake,
        msg == 2 ==> a == (SupervisorAction::TlbShootdown { vaddr: SHOOTDOWN_TARGET_VADDR, cpu_mask: 0 }),
        msg > 2 ==> a == SupervisorAction::Ignore,
{
    if msg == 0 {
        SupervisorAction::Idle
    } else if msg == 1 {
        SupervisorAction::Handshake
    } else if msg == 2 {
        SupervisorAction::TlbShootdown { vaddr: SHOOTDOWN_TARGET_VADDR, cpu_mask: 0 }
    } else {
        SupervisorAction::Ignore
    }
}

/// Highest logical core identifier that becomes a compute node; cores above
/// it are parked.
pub const MAX_WORKER_CORE: u32 = 3;

/// Whether a worker core with this logical identifier is parked in a halt loop
/// instead of taking tasks.
pub fn worker_is_parked(logical_core_id: u32) -> (r: bool)
    ensures
        r == (logical_core_id > MAX_WORKER_CORE),
{
    logical_core_id > MAX_WORKER_CORE
}

/// CR0 of a worker core: emulation (bit 2) cleared, monitor-coprocessor
/// (bit 1) set, every other bit kept.
pub fn worker_cr0(cr0: u64) -> (r: u64)
    ensures
        r == (cr0 & !4u64) | 2u64,
{
    let mut v = cr0;
    v &= !(1u64 << 2u64);
    v |= 1u64 << 1u64;
    assert(v == (cr0 & !4u64) | 2u64) by (bit_vector)
        requires
            v == (cr0 & !(1u64 << 2u64)) | (1u64 << 1u64),
    ;
    v
}

/// CR4 of a worker core: OSFXSR (bit 9) and OSXMMEXCPT (bit 10) set, every
/// other bit kept.
pub fn worker_cr4(cr4: u64) -> (r: u64)
    ensures
        r == cr4 | 0x600u64,
{
    let mut v = cr4;
    v |= 1u64 << 9u64;
    v |= 1u64 << 10u64;
    assert(v == cr4 | 0x600u64) by (bit_vector)
        requires
            v == (cr4 | (1u64 << 9u64)) | (1u64 << 10u64),
    ;
    v
}

/// IA32_APIC_BASE of a worker core: the global enable (bit 11) cleared, every
/// other bit kept.
pub fn worker_apic_base(val: u64) -> (r: u64)
    ensures
        r == val & !0x800u64,
{
    let mut v = val;
    v &= !(1u64 << 11u64);
    assert(v == val & !0x800u64) by (bit_vector)
        requires
            v == val & !(1u64 << 11u64),
    ;
    v
}

} // verus!
