//! The source of the numbers that make forged names unique.

use vstd::prelude::*;

verus! {

/// Hands out the numbers `0, 1, 2, ...` in turn, each one once.
///
/// A registry never goes back and is never reset. The numbers run up to
/// `usize::MAX - 1`; once they are used up the registry is exhausted and hands
/// out nothing more, since any further number would repeat an earlier one.
///
/// A number is drawn through an exclusive borrow, so no two draws can overlap:
/// threads that share a registry share it behind a lock. Two registries know
/// nothing of each other, so a process that wants its forged names to differ
/// throughout keeps one registry for all of them.
pub struct ForgeRegistry {
    issued: usize,
}

impl ForgeRegistry {
    /// How many numbers have been handed out, which is also the number that
    /// comes next.
    pub closed spec fn issued(&self) -> usize {
        self.issued
    }

    /// Whether the number `n` has been handed out.
    pub open spec fn has_issued(&self, n: nat) -> bool {
        n < self.issued()
    }

    /// Whether `draws` more numbers can be handed out.
    pub open spec fn has_room(&self, draws: nat) -> bool {
        self.issued() + draws <= usize::MAX
    }

    /// Nothing but exhaustion stands in the way of a draw: there is always
    /// room for no number at all, and there is room for one number unless
    /// every number has been handed out.
    pub proof fn lemma_room_unless_exhausted(&self)
        ensures
            self.has_room(0),
            self.has_room(1) <==> self.issued() != usize::MAX,
    {
    }

    /// A registry that has handed out nothing yet.
    pub fn new() -> (registry: Self)
        ensures
            registry.issued() == 0,
    {
        ForgeRegistry { issued: 0 }
    }

    /// A registry that goes on from `first`, as one does that has handed out
    /// every number below it.
    pub fn starting_at(first: usize) -> (registry: Self)
        ensures
            registry.issued() == first,
    {
        ForgeRegistry { issued: first }
    }

    /// The count of numbers that can still be drawn.
    pub fn remaining(&self) -> (left: usize)
        ensures
            left == usize::MAX - self.issued(),
    {
        usize::MAX - self.issued
    }

    /// Whether every number has been handed out.
    pub fn is_exhausted(&self) -> (exhausted: bool)
        ensures
            exhausted == (self.issued() == usize::MAX),
    {
        self.issued == usize::MAX
    }

    /// Draws the next number.
    ///
    /// It is the count of the numbers drawn before it, so it is greater than
    /// each of them, and from now on it counts as handed out itself.
    pub fn next(&mut self) -> (number: usize)
        requires
            old(self).has_room(1),
        ensures
            number == old(self).issued(),
            final(self).issued() == old(self).issued() + 1,
            forall|earlier: nat| old(self).has_issued(earlier) ==> earlier < number,
            forall|n: nat|
                final(self).has_issued(n) <==> old(self).has_issued(n) || n == number,
    {
        let number: usize = self.issued;
        self.issued = number + 1;
        number
    }
}

} // verus!
