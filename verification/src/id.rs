//! Entity identifiers and the generator that issues them.

use vstd::prelude::*;

verus! {

/// Identifies one entity of a world. Identifiers are issued in increasing
/// order and never twice.
#[derive(Debug, Clone, Copy, PartialEq, Eq, PartialOrd, Ord, Hash, Structural)]
pub struct Id(u64);

/// Issues identifiers, counting up from zero.
#[derive(Debug, Clone, Copy)]
pub struct IdGenerator {
    next_id: Id,
}

impl View for Id {
    type V = u64;

    closed spec fn view(&self) -> u64 {
        self.0
    }
}

impl Id {
    /// The identifier's number.
    pub fn raw(&self) -> (r: u64)
        ensures
            r == self@,
    {
        self.0
    }
}

impl IdGenerator {
    /// The number of the identifier that will be issued next.
    pub closed spec fn upcoming(self) -> u64 {
        self.next_id.0
    }

    /// The identifier that will be issued next.
    pub closed spec fn peek(self) -> Id {
        self.next_id
    }

    /// The generator after it has issued one identifier.
    pub closed spec fn advanced(self) -> IdGenerator {
        IdGenerator { next_id: Id((self.next_id.0 + 1) as u64) }
    }

    /// The next identifier carries the upcoming number, and issuing it
    /// moves the upcoming number on by one.
    pub proof fn lemma_advanced(self)
        ensures
            self.peek()@ == self.upcoming(),
            self.upcoming() < u64::MAX ==> self.advanced().upcoming() == self.upcoming() + 1,
    {
    }

    /// The generator that has issued nothing yet.
    pub closed spec fn spec_fresh() -> IdGenerator {
        IdGenerator { next_id: Id(0) }
    }

    /// The fresh generator starts at number zero.
    pub proof fn lemma_fresh()
        ensures
            IdGenerator::spec_fresh().upcoming() == 0,
    {
    }

    /// A generator that has issued nothing yet.
    pub fn new() -> (r: Self)
        ensures
            r == IdGenerator::spec_fresh(),
            r.upcoming() == 0,
    {
        IdGenerator { next_id: Id(0) }
    }

    /// Issues the next identifier.
    pub fn gen(&mut self) -> (id: Id)
        requires
            old(self).upcoming() < u64::MAX,
        ensures
            id == old(self).peek(),
            *final(self) == old(self).advanced(),
            id@ == old(self).upcoming(),
            final(self).upcoming() == old(self).upcoming() + 1,
    {
        let id = self.next_id;
        self.next_id = Id(id.0 + 1);
        id
    }

    /// How many identifiers can still be issued.
    pub fn remaining(&self) -> (r: u64)
        ensures
            r == u64::MAX - self.upcoming(),
    {
        u64::MAX - self.next_id.0
    }
}

impl Default for IdGenerator {
    fn default() -> (r: Self)
        ensures
            r.upcoming() == 0,
    {
        IdGenerator::new()
    }
}

} // verus!
