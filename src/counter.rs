//! A single 64-bit counter whose decrement stops at zero.
use vstd::prelude::*;

verus! {

/// A counter that anyone may move up, down, reset or set.
pub struct Counter {
    value: u64,
}

impl View for Counter {
    type V = nat;

    closed spec fn view(&self) -> nat {
        self.value as nat
    }
}

impl Counter {
    /// A counter at zero.
    pub fn init() -> (r: Counter)
        ensures
            r@ == 0,
    {
        Counter { value: 0 }
    }

    /// Adds one.
    pub fn increment(&mut self)
        requires
            old(self)@ < u64::MAX,
        ensures
            final(self)@ == old(self)@ + 1,
    {
        self.value = self.value + 1;
    }

    /// Subtracts one, unless the counter is already at zero.
    pub fn decrement(&mut self)
        ensures
            old(self)@ > 0 ==> final(self)@ == old(self)@ - 1,
            old(self)@ == 0 ==> final(self)@ == 0,
    {
        if self.value > 0 {
            self.value = self.value - 1;
        }
    }

    /// Sets the counter back to zero.
    pub fn reset(&mut self)
        ensures
            final(self)@ == 0,
    {
        self.value = 0;
    }

    /// The current value.
    pub fn get_counter(&self) -> (r: u64)
        ensures
            r == self@,
    {
        self.value
    }

    /// Sets the counter to `value`.
    pub fn set_counter(&mut self, value: u64)
        ensures
            final(self)@ == value,
    {
        self.value = value;
    }
}

} // verus!
