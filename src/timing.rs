use vstd::prelude::*;

use crate::error::Error;

verus! {

/// Parts per million in one.
pub const MILLION: u32 = 1000000;

/// The fraction of a pulse spent lit, in millionths, within `(0, 1]`.
#[derive(Clone, Copy, Debug, PartialEq, Eq, Structural)]
pub struct DutyCycle {
    millionths: u32,
}

impl DutyCycle {
    #[verifier::type_invariant]
    spec fn valid(self) -> bool {
        0 < self.millionths <= MILLION
    }

    /// The duty cycle in millionths.
    pub closed spec fn value(self) -> nat {
        self.millionths as nat
    }

    /// Makes a duty cycle of `v` millionths; only `0 < v <= 1_000_000` is accepted.
    pub fn from_millionths(v: i64) -> (r: Result<DutyCycle, Error>)
        ensures
            match r {
                Ok(d) => 0 < v <= MILLION && d.value() == v,
                Err(e) => e == Error::InvalidDutyCycle && !(0 < v <= MILLION),
            },
    {
        if v <= 0 || v > MILLION as i64 {
            Err(Error::InvalidDutyCycle)
        } else {
            Ok(DutyCycle { millionths: v as u32 })
        }
    }

    /// The duty cycle in millionths.
    pub fn millionths(&self) -> (r: u32)
        ensures
            r == self.value(),
            0 < r <= MILLION,
    {
        proof {
            use_type_invariant(self);
        }
        self.millionths
    }
}

/// Durations in milliseconds of the gap at a `Break` and of the lit and dark phases of
/// short and long pulses.
#[derive(Clone, Copy, Debug, PartialEq, Eq, Structural)]
pub struct Timing {
    pub base: u64,
    pub short_on: u64,
    pub short_off: u64,
    pub long_on: u64,
    pub long_off: u64,
}

/// The lit part of a pulse of `base` ms at `duty` millionths, rounded down.
pub open spec fn lit_part(base: nat, duty: nat) -> nat {
    base * duty / (MILLION as nat)
}

/// The dark part of a pulse of `base` ms at `duty` millionths, rounded down.
pub open spec fn dark_part(base: nat, duty: nat) -> nat {
    base * ((MILLION as nat - duty) as nat) / (MILLION as nat)
}

fn split_pulse(base: u64, duty: u32) -> (r: (u64, u64))
    requires
        0 < duty <= MILLION,
    ensures
        r.0 == lit_part(base as nat, duty as nat),
        r.1 == dark_part(base as nat, duty as nat),
        r.0 + r.1 <= base,
{
    let b = base as u128;
    proof {
        let bn = b as int;
        assert(bn * (duty as int) <= bn * 1000000) by (nonlinear_arith)
            requires bn >= 0, 0 < duty <= 1000000;
        assert(bn * ((MILLION - duty) as int) <= bn * 1000000) by (nonlinear_arith)
            requires bn >= 0, 0 <= MILLION - duty <= 1000000;
    }
    let on = b * (duty as u128) / (MILLION as u128);
    let off = b * ((MILLION - duty) as u128) / (MILLION as u128);
    proof {
        let bn = base as int;
        let d = duty as int;
        let m = MILLION as int;
        assert(bn * d / m <= bn) by (nonlinear_arith)
            requires bn >= 0, 0 < d <= m, m > 0;
        assert(bn * (m - d) / m <= bn) by (nonlinear_arith)
            requires bn >= 0, 0 <= m - d <= m, m > 0;
        assert(bn * d / m + bn * (m - d) / m <= bn) by (nonlinear_arith)
            requires bn >= 0, 0 <= d <= m, m > 0;
    }
    (on as u64, off as u64)
}

impl Timing {
    /// The timing of pulses built on `base` ms, with the given duty cycles.
    pub fn new(base: u64, short_duty: DutyCycle, long_duty: DutyCycle) -> (r: Timing)
        ensures
            r.base == base,
            r.short_on == lit_part(base as nat, short_duty.value()),
            r.short_off == dark_part(base as nat, short_duty.value()),
            r.long_on == lit_part(base as nat, long_duty.value()),
            r.long_off == dark_part(base as nat, long_duty.value()),
    {
        let (short_on, short_off) = split_pulse(base, short_duty.millionths());
        let (long_on, long_off) = split_pulse(base, long_duty.millionths());
        Timing { base, short_on, short_off, long_on, long_off }
    }
}

} // verus!
