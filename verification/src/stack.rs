//! The bounded call stack: a LIFO of at most sixteen return addresses.

use vstd::prelude::*;

use crate::errors::CpuError;

verus! {

/// Capacity of the call stack.
pub const STACK_CAPACITY: usize = 16;

/// A LIFO of return addresses with capacity 16. Pushing onto a full stack
/// and popping from an empty one are both faults.
pub struct Stack {
    entries: Vec<u16>,
}

impl View for Stack {
    type V = Seq<u16>;

    closed spec fn view(&self) -> Seq<u16> {
        self.entries@
    }
}

impl Stack {
    /// The depth never exceeds the capacity.
    pub open spec fn wf(&self) -> bool {
        self@.len() <= STACK_CAPACITY
    }

    /// An empty stack.
    pub fn new() -> (s: Stack)
        ensures
            s.wf(),
            s@ == Seq::<u16>::empty(),
    {
        let s = Stack { entries: Vec::new() };
        proof {
            assert(s@ =~= Seq::<u16>::empty());
        }
        s
    }

    /// The current depth.
    pub fn depth(&self) -> (d: usize)
        ensures
            d == self@.len(),
    {
        self.entries.len()
    }

    /// Push a return address. Succeeds exactly when the depth is below 16;
    /// a full stack reports `StackOverflow` and is left unchanged.
    pub fn push(&mut self, addr: u16) -> (r: Result<(), CpuError>)
        requires
            old(self).wf(),
        ensures
            final(self).wf(),
            old(self)@.len() < STACK_CAPACITY ==> r == Ok::<(), CpuError>(()) && final(self)@
                == old(self)@.push(addr),
            old(self)@.len() == STACK_CAPACITY ==> r == Err::<(), CpuError>(
                CpuError::StackOverflow,
            ) && final(self)@ == old(self)@,
    {
        if self.entries.len() < STACK_CAPACITY {
            self.entries.push(addr);
            Ok(())
        } else {
            Err(CpuError::StackOverflow)
        }
    }

    /// Pop the most recently pushed address. Succeeds exactly when the
    /// stack is non-empty; an empty stack reports `StackUnderflow`.
    pub fn pop(&mut self) -> (r: Result<u16, CpuError>)
        requires
            old(self).wf(),
        ensures
            final(self).wf(),
            old(self)@.len() > 0 ==> r == Ok::<u16, CpuError>(old(self)@.last()) && final(self)@
                == old(self)@.drop_last(),
            old(self)@.len() == 0 ==> r == Err::<u16, CpuError>(CpuError::StackUnderflow)
                && final(self)@ == old(self)@,
    {
        match self.entries.pop() {
            Some(addr) => Ok(addr),
            None => Err(CpuError::StackUnderflow),
        }
    }
}

} // verus!
