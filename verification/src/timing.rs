//! Lengths of time, as plain integers.
use vstd::prelude::*;

verus! {

/// A number of seconds as a cluster description states it: the 64 bits of an
/// IEEE 754 double. Every bit pattern is a value, those that are not numbers included.
#[derive(Clone, Copy, Debug, PartialEq, Eq, Structural)]
pub struct Seconds {
    pub bits: u64,
}

/// The bit pattern of positive infinity; the patterns above it, up to the sign bit, are not numbers.
pub const POSITIVE_INFINITY_BITS: u64 = 0x7FF0_0000_0000_0000;

impl Seconds {
    /// The value compares greater than zero.
    pub open spec fn spec_is_positive(self) -> bool {
        0 < self.bits <= POSITIVE_INFINITY_BITS
    }

    /// Tells whether the value compares greater than zero.
    pub fn is_positive(&self) -> (res: bool)
        ensures
            res == self.spec_is_positive(),
    {
        0 < self.bits && self.bits <= POSITIVE_INFINITY_BITS
    }
}

/// A length of time in whole seconds and nanoseconds, never negative.
#[derive(Clone, Copy, Debug, PartialEq, Eq, Structural)]
pub struct Span {
    pub secs: u64,
    pub nanos: u32,
}

impl Span {
    /// The empty length of time.
    pub open spec fn spec_zero() -> Span {
        Span { secs: 0, nanos: 0 }
    }

    /// The length of time in nanoseconds.
    pub open spec fn spec_total_nanos(self) -> nat {
        self.secs as nat * 1_000_000_000 + self.nanos as nat
    }

    /// The empty length of time.
    pub fn zero() -> (res: Span)
        ensures
            res == Self::spec_zero(),
    {
        Span { secs: 0, nanos: 0 }
    }

    /// Tells whether the length of time is empty.
    pub fn is_zero(&self) -> (res: bool)
        ensures
            res == (self.spec_total_nanos() == 0),
    {
        self.secs == 0 && self.nanos == 0
    }
}

/// A number of seconds is positive if and only if, as a double, it has no sign, is not zero, and is
/// a number: not all bits of the exponent are set, or no bit of the fraction is.
pub proof fn positive_without_sign_zero_or_nan(secs: Seconds, res: bool)
    requires
        call_ensures(Seconds::is_positive, (&secs,), res),
    ensures
        ({
            let sign = secs.bits >> 63;
            let exponent = secs.bits >> 52 & 0x7FF;
            let fraction = secs.bits & 0xF_FFFF_FFFF_FFFF;
            &&& res <==> sign == 0 && (exponent != 0 || fraction != 0) && (exponent != 0x7FF
                || fraction == 0)
            &&& secs.spec_is_positive() <==> res
        }),
{
    let b = secs.bits;
    assert(0 < b <= 0x7FF0_0000_0000_0000u64 <==> b >> 63 == 0 && (b >> 52 & 0x7FF != 0 || b
        & 0xF_FFFF_FFFF_FFFF != 0) && (b >> 52 & 0x7FF != 0x7FF || b & 0xF_FFFF_FFFF_FFFF == 0))
        by (bit_vector);
}

/// Lengths of time are counted in nanoseconds, of which a second has a thousand million.
pub proof fn nanoseconds_are_counted(secs: u64, nanos: u32)
    ensures
        (Span { secs: 0, nanos: 0 }).spec_total_nanos() == 0,
        nanos < u32::MAX ==> (Span { secs, nanos: (nanos + 1) as u32 }).spec_total_nanos() == (
        Span { secs, nanos }).spec_total_nanos() + 1,
        secs < u64::MAX ==> (Span { secs: (secs + 1) as u64, nanos }).spec_total_nanos() == (
        Span { secs, nanos }).spec_total_nanos() + 1_000_000_000,
{
}

/// A length of time is empty if and only if it has neither seconds nor nanoseconds.
pub proof fn empty_without_seconds_and_nanoseconds(span: Span, res: bool)
    requires
        call_ensures(Span::is_zero, (&span,), res),
    ensures
        res <==> span.secs == 0 && span.nanos == 0,
        span.spec_total_nanos() == 0 <==> span.secs == 0 && span.nanos == 0,
        Span::spec_zero().secs == 0 && Span::spec_zero().nanos == 0,
{
}

} // verus!
