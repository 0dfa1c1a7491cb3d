//! Cooperative round-robin scheduling of two tasks: their saved contexts,
//! the initial stack frame a task starts from, and the choice of the next
//! task. Task entry points are given by their code addresses.
use vstd::prelude::*;

verus! {

/// Bytes of stack per task.
pub const STACK_SIZE: u64 = 16 * 1024;

/// The saved state of a task that is not running: its stack pointer.
#[derive(Clone, Copy, Debug, PartialEq, Eq, Structural)]
pub struct Context {
    pub rsp: u64,
}

/// A task: its id, saved context and entry address.
#[derive(Clone, Copy, Debug, PartialEq, Eq, Structural)]
pub struct Pcb {
    pub id: usize,
    pub context: Context,
    pub entry: u64,
}

/// The stack pointer a task starts with, given the base address of its
/// stack: the stack's end rounded down to 16 bytes, less the seven-word
/// frame the context switch pops.
pub open spec fn initial_rsp(stack: u64) -> int {
    ((stack + STACK_SIZE) as u64 & !0xfu64) - 56
}

/// The words at the initial stack pointer: six zeroed callee-saved registers,
/// then the entry address the switch returns to.
pub open spec fn initial_frame(entry: u64) -> Seq<u64> {
    seq![0u64, 0, 0, 0, 0, 0, entry]
}

/// Whether `rsp` lies in the stack at `stack` with room for the initial
/// frame above it: at most 16 bytes below the stack's end less the frame's 56,
/// and 16-byte aligned once the frame's return address is popped.
pub open spec fn stack_fits(stack: u64, rsp: u64) -> bool {
    &&& stack <= rsp
    &&& rsp + 56 <= stack + STACK_SIZE
    &&& stack + STACK_SIZE - rsp < 56 + 16
    &&& (rsp + 56) % 16 == 0
}

proof fn lemma_initial_rsp(stack: u64)
    requires
        stack + STACK_SIZE <= u64::MAX,
    ensures
        0 <= initial_rsp(stack) <= u64::MAX,
        stack_fits(stack, initial_rsp(stack) as u64),
{
    let end = (stack + 16384) as u64;
    let top = end & !0xfu64;
    assert(top <= end && end - top < 16 && top % 16 == 0 && end >= 16384) by (bit_vector)
        requires top == end & !0xfu64, end == stack + 16384, stack + 16384 <= 0xffff_ffff_ffff_ffffu64;
}

/// The two tasks and which of them runs.
pub struct Scheduler {
    tasks: [Pcb; 2],
    current: usize,
}

impl Scheduler {
    #[verifier::type_invariant]
    closed spec fn current_ok(&self) -> bool {
        self.current < 2
    }

    /// The tasks, by id.
    pub closed spec fn tasks(&self) -> Seq<Pcb> {
        self.tasks@
    }

    /// The id of the running task.
    pub closed spec fn running(&self) -> usize {
        self.current
    }

    /// Task 0 runs `task_a`, task 1 runs `task_b`; neither has a saved
    /// context yet, and task 0 is current.
    pub fn new(task_a: u64, task_b: u64) -> (s: Self)
        ensures
            s.tasks() == seq![
                Pcb { id: 0, context: Context { rsp: 0 }, entry: task_a },
                Pcb { id: 1, context: Context { rsp: 0 }, entry: task_b },
            ],
            s.running() == 0,
    {
        let s = Scheduler {
            tasks: [
                Pcb { id: 0, context: Context { rsp: 0 }, entry: task_a },
                Pcb { id: 1, context: Context { rsp: 0 }, entry: task_b },
            ],
            current: 0,
        };
        assert(s.tasks() =~= seq![
            Pcb { id: 0, context: Context { rsp: 0 }, entry: task_a },
            Pcb { id: 1, context: Context { rsp: 0 }, entry: task_b },
        ]);
        s
    }

    /// What preparing task `id` on the stack at `stack` does: its saved stack
    /// pointer becomes the initial one, nothing else changes, and `frame` is
    /// the initial frame of its entry.
    pub open spec fn prepared(self, id: usize, stack: u64, post: Self, frame: [u64; 7]) -> bool {
        &&& id < 2
        &&& frame@ == initial_frame(self.tasks()[id as int].entry)
        &&& post.tasks() == self.tasks().update(
            id as int,
            Pcb { context: Context { rsp: initial_rsp(stack) as u64 }, ..self.tasks()[id as int] },
        )
        &&& post.running() == self.running()
    }

    /// Sets up task `id` to start on the stack at `stack`: its saved stack
    /// pointer becomes the initial one, and the returned words are the frame
    /// to store there.
    pub fn prepare_context(&mut self, id: usize, stack: u64) -> (frame: [u64; 7])
        requires
            id < 2,
            stack + STACK_SIZE <= u64::MAX,
        ensures
            frame@ == initial_frame(old(self).tasks()[id as int].entry),
            final(self).tasks() == old(self).tasks().update(
                id as int,
                Pcb {
                    context: Context { rsp: initial_rsp(stack) as u64 },
                    ..old(self).tasks()[id as int]
                },
            ),
            final(self).running() == old(self).running(),
            old(self).prepared(id, stack, *final(self), frame),
            stack_fits(stack, final(self).tasks()[id as int].context.rsp),
            frame@[6] == old(self).tasks()[id as int].entry,
            forall|k: int| 0 <= k < 6 ==> frame@[k] == 0,
    {
        proof { use_type_invariant(&*self); }
        let end = stack + STACK_SIZE;
        let top = end & !0xfu64;
        assert(top >= end - 15 && end >= 16384) by (bit_vector)
            requires top == end & !0xfu64, end >= 16384u64;
        let rsp = top - 56;
        let entry = self.tasks[id].entry;
        let mut tasks = self.tasks;
        tasks[id] = Pcb { id: tasks[id].id, context: Context { rsp }, entry };
        let frame = [0u64, 0, 0, 0, 0, 0, entry];
        proof {
            lemma_initial_rsp(stack);
            assert(frame@ =~= initial_frame(entry));
            assert(tasks@ =~= self.tasks().update(
                id as int,
                Pcb { context: Context { rsp: initial_rsp(stack) as u64 }, ..self.tasks()[id as int] },
            ));
        }
        *self = Scheduler { tasks, current: self.current };
        frame
    }

    /// Replaces the entry of task 1 with `entry` and prepares its context on
    /// the stack at `stack`, provided task 1 still runs `task_a`; returns the
    /// task's id and its initial frame.
    pub fn spawn(&mut self, entry: u64, task_a: u64, stack: u64) -> (r: Result<(usize, [u64; 7]), ()>)
        requires
            stack + STACK_SIZE <= u64::MAX,
        ensures
            old(self).tasks()[1].entry != task_a ==> r is Err && final(self).tasks() == old(self).tasks()
                && final(self).running() == old(self).running(),
            old(self).tasks()[1].entry == task_a ==> r is Ok && r->Ok_0.0 == 1 && r->Ok_0.1@
                == initial_frame(entry) && final(self).tasks() == old(self).tasks().update(
                1,
                Pcb {
                    id: old(self).tasks()[1].id,
                    context: Context { rsp: initial_rsp(stack) as u64 },
                    entry,
                },
            ) && final(self).running() == old(self).running(),
            r is Ok ==> stack_fits(stack, final(self).tasks()[1].context.rsp),
    {
        proof { use_type_invariant(&*self); }
        if self.tasks[1].entry == task_a {
            let mut tasks = self.tasks;
            tasks[1] = Pcb { id: tasks[1].id, context: tasks[1].context, entry };
            *self = Scheduler { tasks, current: self.current };
            let frame = self.prepare_context(1, stack);
            return Ok((1, frame));
        }
        Err(())
    }

    /// Hands the processor to the other task: returns the ids of the task
    /// that stops and of the one that runs next, which becomes current.
    pub fn yield_now(&mut self) -> (r: (usize, usize))
        ensures
            r.0 == old(self).running(),
            r.1 == (old(self).running() + 1) % 2,
            final(self).running() == r.1,
            final(self).tasks() == old(self).tasks(),
    {
        proof { use_type_invariant(&*self); }
        let old_id = self.current;
        let next = (old_id + 1) % 2;
        *self = Scheduler { tasks: self.tasks, current: next };
        (old_id, next)
    }
}

/// One pass of the boot task that receives: when it received a message it
/// counts the round, and from the third received message on it asks for the
/// first userspace service to be started. The count wraps around.
pub fn receiver_round(rounds: &mut usize, received: bool) -> (start_service: bool)
    ensures
        !received ==> !start_service && *final(rounds) == *old(rounds),
        received ==> start_service == (*old(rounds) >= 2) && *final(rounds) == if *old(rounds) == usize::MAX {
            0
        } else {
            (*old(rounds) + 1) as usize
        },
{
    if !received {
        return false;
    }
    let previous = *rounds;
    *rounds = previous.wrapping_add(1);
    previous >= 2
}

/// A prepared task's stack pointer lies inside its own stack, with the whole
/// initial frame between it and the stack's end and less than 16 bytes
/// unused above the frame; the frame's top word is the task's entry and the
/// six words below it are zero.
pub proof fn law_prepared_context_in_stack(before: Scheduler, id: usize, stack: u64, after: Scheduler, frame: [u64; 7])
    requires
        stack + STACK_SIZE <= u64::MAX,
        before.prepared(id, stack, after, frame),
    ensures
        stack <= after.tasks()[id as int].context.rsp,
        after.tasks()[id as int].context.rsp + 56 <= stack + STACK_SIZE,
        stack + STACK_SIZE - after.tasks()[id as int].context.rsp < 56 + 16,
        (after.tasks()[id as int].context.rsp + 56) % 16 == 0,
        after.tasks()[id as int].entry == before.tasks()[id as int].entry,
        frame@[6] == before.tasks()[id as int].entry,
        forall|k: int| 0 <= k < 6 ==> frame@[k] == 0,
{
    lemma_initial_rsp(stack);
}

} // verus!
