//! Thread control blocks: the smallest unit of schedulable execution.
use vstd::prelude::*;

verus! {

/// Scheduling state of a thread slot.
#[derive(Debug, Clone, Copy, PartialEq, Eq, Structural)]
pub enum ThreadState {
    /// The slot is unallocated or has been reaped.
    Empty,
    /// The thread is eligible for execution and awaits CPU time.
    Ready,
    /// The thread is dispatched to a core and executing.
    Running,
    /// The thread is suspended awaiting an external event.
    Blocked,
}

/// The execution context of a single thread.
#[derive(Debug, Clone, Copy)]
pub struct Thread {
    /// Unique identifier for the thread across the system.
    pub id: u64,
    /// The process that owns this thread and provides its address space.
    pub parent_process_id: u64,
    /// Current scheduling state.
    pub state: ThreadState,
    /// Saved stack pointer restored when the thread resumes.
    pub stack_pointer: u64,
    /// Instruction pointer at which the thread resumes.
    pub instruction_pointer: u64,
}

/// The value of an unallocated thread slot.
pub open spec fn empty_thread() -> Thread {
    Thread {
        id: 0,
        parent_process_id: 0,
        state: ThreadState::Empty,
        stack_pointer: 0,
        instruction_pointer: 0,
    }
}

impl Thread {
    /// A null thread, used to pre-allocate or reset a slot.
    pub fn empty() -> (t: Thread)
        ensures
            t == empty_thread(),
    {
        Thread {
            id: 0,
            parent_process_id: 0,
            state: ThreadState::Empty,
            stack_pointer: 0,
            instruction_pointer: 0,
        }
    }
}

} // verus!
