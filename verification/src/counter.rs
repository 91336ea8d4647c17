use vstd::prelude::*;

verus! {

/// A running count that can be stepped and reset.
pub struct Counter {
    pub value: i32,
}

impl Counter {
    /// A counter that starts at `value`.
    pub fn new(value: i32) -> (c: Counter)
        ensures
            c.value == value,
    {
        Counter { value }
    }

    /// Steps the counter by one and returns the new count.
    pub fn inc(&mut self) -> (r: i32)
        requires
            old(self).value < i32::MAX,
        ensures
            final(self).value == old(self).value + 1,
            r == old(self).value + 1,
    {
        self.value += 1;
        self.value
    }

    /// Consumes the counter and returns its count.
    pub fn val(self) -> (r: i32)
        ensures
            r == self.value,
    {
        self.value
    }

    /// Sets the counter back to zero and returns the new count, zero.
    pub fn reset(&mut self) -> (r: i32)
        ensures
            final(self).value == 0,
            r == 0,
    {
        self.value = 0;
        self.value
    }
}

} // verus!
