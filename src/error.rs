use vstd::prelude::*;

verus! {

/// Errors of the LED clock.
#[derive(Clone, Copy, Debug, PartialEq, Eq, Structural)]
pub enum Error {
    /// A duty cycle outside `(0, 1]`.
    InvalidDutyCycle,
    /// A duty cycle that is not a number.
    ParseFloat,
    /// A brightness endpoint that does not hold an unsigned integer.
    ParseInt,
    /// A read or write on the LED's control endpoints failed.
    Led,
}

} // verus!
