//! Credit-based flow control for a single stream.
use vstd::prelude::*;

verus! {

/// Fraction of a stream's capacity below which credit should be replenished.
pub const FC_NUMERATOR: u32 = 1;

/// See [`FC_NUMERATOR`].
pub const FC_DENOMINATOR: u32 = 2;

/// Credits of a stream: a capacity and the part of it that is still available.
///
/// The available credit never exceeds the capacity.
pub struct Credits {
    pub(crate) capacity: u32,
    available: u32,
}

/// Available credit after `credit` is added to `available`, saturating at `capacity`.
pub open spec fn credit_after_add(capacity: int, available: int, credit: int) -> int {
    if available + credit > capacity {
        capacity
    } else {
        available + credit
    }
}

impl Credits {
    #[verifier::type_invariant]
    spec fn within_capacity(self) -> bool {
        self.available <= self.capacity
    }

    /// The capacity, as a value.
    pub closed spec fn spec_capacity(&self) -> u32 {
        self.capacity
    }

    /// The available credit, as a value.
    pub closed spec fn spec_available(&self) -> u32 {
        self.available
    }

    /// A fresh set of credits: all of `capacity` is available.
    pub fn new(capacity: u32) -> (c: Self)
        ensures
            c.spec_capacity() == capacity,
            c.spec_available() == capacity,
    {
        Credits { capacity, available: capacity }
    }

    /// Updates the capacity, clipping the available credit to it if needed.
    pub fn set_capacity(&mut self, capacity: u32)
        ensures
            final(self).spec_capacity() == capacity,
            final(self).spec_available() == if old(self).spec_available() > capacity {
                capacity
            } else {
                old(self).spec_available()
            },
    {
        proof {
            use_type_invariant(&*self);
        }
        if self.available > capacity {
            self.available = capacity;
        }
        self.capacity = capacity;
    }

    /// Adds available credit, up to but not exceeding the capacity, and
    /// returns the updated available credit.
    pub fn add_credit(&mut self, credit: u32) -> (avail: u32)
        ensures
            final(self).spec_capacity() == old(self).spec_capacity(),
            final(self).spec_available() == credit_after_add(
                old(self).spec_capacity() as int,
                old(self).spec_available() as int,
                credit as int,
            ),
            avail == final(self).spec_available(),
    {
        proof {
            use_type_invariant(&*self);
        }
        if credit > self.capacity - self.available {
            self.available = self.capacity;
        } else {
            self.available = self.available + credit;
        }
        self.available
    }

    /// Takes `credit` from the available credit and returns what is left;
    /// fails, changing nothing, when less than `credit` is available.
    pub fn use_credit(&mut self, credit: u32) -> (r: Result<u32, ()>)
        ensures
            final(self).spec_capacity() == old(self).spec_capacity(),
            r is Err <==> credit > old(self).spec_available(),
            r is Err ==> final(self).spec_available() == old(self).spec_available(),
            r matches Ok(left) ==> left == old(self).spec_available() - credit
                && final(self).spec_available() == left,
    {
        proof {
            use_type_invariant(&*self);
        }
        if credit > self.available {
            return Err(());
        }
        self.available = self.available - credit;
        Ok(self.available)
    }

    /// Whether at least `requested` credit is available.
    pub fn has_capacity(&self, requested: u32) -> (b: bool)
        ensures
            b == (self.spec_available() >= requested),
    {
        self.available >= requested
    }

    /// The capacity.
    pub fn capacity(&self) -> (c: u32)
        ensures
            c == self.spec_capacity(),
    {
        self.capacity
    }

    /// The available credit; it never exceeds the capacity.
    pub fn available(&self) -> (a: u32)
        ensures
            a == self.spec_available(),
            a <= self.spec_capacity(),
    {
        proof {
            use_type_invariant(self);
        }
        self.available
    }
}

/// Taking some credit and then adding the same amount back restores the available credit.
pub proof fn lemma_use_then_add_restores(capacity: int, available: int, credit: int)
    requires
        0 <= credit <= available <= capacity,
    ensures
        credit_after_add(capacity, available - credit, credit) == available,
{
}

/// Adding credit never lowers the available credit and never takes it above the capacity.
pub proof fn lemma_add_within_capacity(capacity: int, available: int, credit: int)
    requires
        0 <= available <= capacity,
        0 <= credit,
    ensures
        available <= credit_after_add(capacity, available, credit) <= capacity,
{
}

/// Adding credit gives the smaller of the capacity and the sum of the available credit and
/// the grant: the result never exceeds either, and it is one of them.
pub proof fn lemma_add_credit_is_min(capacity: int, available: int, credit: int)
    requires
        0 <= available <= capacity,
        0 <= credit,
    ensures
        credit_after_add(capacity, available, credit) <= capacity,
        credit_after_add(capacity, available, credit) <= available + credit,
        credit_after_add(capacity, available, credit) == capacity || credit_after_add(
            capacity,
            available,
            credit,
        ) == available + credit,
        available + credit >= capacity ==> credit_after_add(capacity, available, credit)
            == capacity,
{
}

} // verus!
