//! Counting the active connections.

use vstd::prelude::*;

verus! {

/// Tracks the number of active proxy connections. Its view is that number.
#[derive(Debug)]
pub struct ActiveConnections {
    count: usize,
}

/// Stands for one active connection until it is handed back.
#[derive(Debug)]
pub struct ConnectionGuard {
    _private: (),
}

/// One more than `count`; beyond the largest number the count starts over.
pub open spec fn one_more(count: usize) -> usize {
    if count == usize::MAX {
        0
    } else {
        (count + 1) as usize
    }
}

/// One less than `count`; below zero the count goes on from the largest number.
pub open spec fn one_less(count: usize) -> usize {
    if count == 0 {
        usize::MAX
    } else {
        (count - 1) as usize
    }
}

impl View for ActiveConnections {
    type V = usize;

    closed spec fn view(&self) -> usize {
        self.count
    }
}

impl ActiveConnections {
    /// No connections.
    pub fn new() -> (active: Self)
        ensures
            active@ == 0,
    {
        ActiveConnections { count: 0 }
    }

    /// Counts a new connection and gives out the guard that stands for it.
    pub fn guard(&mut self) -> (guard: ConnectionGuard)
        ensures
            final(self)@ == one_more(old(self)@),
            old(self)@ < usize::MAX ==> final(self)@ == old(self)@ + 1,
            old(self)@ == usize::MAX ==> final(self)@ == 0,
    {
        self.count = self.count.wrapping_add(1);
        ConnectionGuard { _private: () }
    }

    /// Takes back the guard of a connection that is over.
    pub fn release(&mut self, guard: ConnectionGuard)
        ensures
            final(self)@ == one_less(old(self)@),
            old(self)@ > 0 ==> final(self)@ == old(self)@ - 1,
            old(self)@ == 0 ==> final(self)@ == usize::MAX,
    {
        self.count = self.count.wrapping_sub(1);
    }

    /// The number of active connections.
    pub fn count(&self) -> (count: usize)
        ensures
            count == self@,
    {
        self.count
    }
}

/// Taking back a guard undoes giving it out.
pub proof fn law_release_undoes_guard(count: usize)
    ensures
        one_less(one_more(count)) == count,
        one_more(one_less(count)) == count,
{
}

/// The next count is one more, unless there is no larger one; the count before is
/// one less, unless there is no smaller one.
pub proof fn law_counts_by_one(count: usize)
    ensures
        count < usize::MAX ==> one_more(count) == count + 1,
        count > 0 ==> one_less(count) == count - 1,
        one_more(count) == count + 1 || one_more(count) == count - usize::MAX,
        one_less(count) == count - 1 || one_less(count) == count + usize::MAX,
{
}

} // verus!
