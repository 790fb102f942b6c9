//! Task identifiers and the errors of tasks. Running tasks (futures, threads) is left to the
//! caller.
use vstd::prelude::*;
use crate::text::owned;

verus! {

/// The identifier of a task.
#[derive(Debug, Clone, Copy, PartialEq, Eq, Structural, Hash)]
pub struct TaskId(u64);

impl TaskId {
    /// The number of the identifier.
    pub closed spec fn number(&self) -> u64 {
        self.0
    }

    /// The number of the identifier.
    pub fn get(&self) -> (r: u64)
        ensures
            r == self.number(),
    {
        self.0
    }
}

/// Hands out task identifiers in sequence, from 1 on; the count wraps around after `u64::MAX`.
#[derive(Debug)]
pub struct TaskIds {
    next: u64,
}

/// The number after `n`, wrapping to 0 after `u64::MAX`.
pub open spec fn following(n: u64) -> u64 {
    if n == u64::MAX {
        0
    } else {
        (n + 1) as u64
    }
}

impl TaskIds {
    /// The number of the next identifier handed out.
    pub closed spec fn upcoming(&self) -> u64 {
        self.next
    }

    /// A sequence whose first identifier is 1.
    pub fn new() -> (r: TaskIds)
        ensures
            r.upcoming() == 1,
    {
        TaskIds { next: 1 }
    }

    /// The next identifier.
    pub fn next_task_id(&mut self) -> (id: TaskId)
        ensures
            id.number() == old(self).upcoming(),
            final(self).upcoming() == following(old(self).upcoming()),
    {
        let id = TaskId(self.next);
        self.next = self.next.wrapping_add(1);
        id
    }
}

/// Identifiers handed out one after the other by the same sequence are distinct, as long as it
/// has handed out fewer than `u64::MAX` of them since the first.
pub proof fn law_task_ids_distinct(start: u64, k: nat)
    requires
        0 < k < u64::MAX,
    ensures
        nth_after(start, k) != start,
{
    lemma_nth_after(start, k);
}

/// The number `k` steps after `n` in the sequence.
pub open spec fn nth_after(n: u64, k: nat) -> u64
    decreases k,
{
    if k == 0 {
        n
    } else {
        following(nth_after(n, (k - 1) as nat))
    }
}

/// `k` steps after `n` is `n + k` modulo `2^64`.
proof fn lemma_nth_after(n: u64, k: nat)
    ensures
        nth_after(n, k) as int == (n as int + k) % 0x1_0000_0000_0000_0000,
    decreases k,
{
    if k > 0 {
        lemma_nth_after(n, (k - 1) as nat);
        assert((n as int + k) % 0x1_0000_0000_0000_0000 == if (n as int + (k - 1)) % 0x1_0000_0000_0000_0000 == u64::MAX {
            0int
        } else {
            (n as int + (k - 1)) % 0x1_0000_0000_0000_0000 + 1
        }) by (nonlinear_arith)
            requires
                k > 0,
                n >= 0,
        {
        }
    }
}

/// The scheduler that runs each task as soon as it is awaited.
#[derive(Debug)]
pub struct ImmediateScheduler;

/// An error of a task: its message.
#[derive(Debug)]
pub enum RuntimeError {
    Message(String),
}

impl View for RuntimeError {
    type V = Seq<char>;

    open spec fn view(&self) -> Seq<char> {
        match self {
            RuntimeError::Message(m) => m@,
        }
    }
}

impl RuntimeError {
    /// An error with the given message.
    pub fn new(message: String) -> (r: RuntimeError)
        ensures
            r@ == message@,
    {
        RuntimeError::Message(message)
    }

    /// The text that the error displays as: its message.
    pub fn to_display_string(&self) -> (r: String)
        ensures
            r@ == self@,
    {
        match self {
            RuntimeError::Message(m) => owned(m.as_str()),
        }
    }
}

} // verus!
