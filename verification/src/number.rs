//! Numbers are binary64 floating-point values, held as their IEEE 754 bit
//! patterns. What the language needs to know of a number without computing
//! with it (whether it counts as true, how two of them are ordered) is read
//! from the bits.

use vstd::prelude::*;

verus! {

/// The sign bit of a binary64 bit pattern.
pub const SIGN: u64 = 0x8000_0000_0000_0000;

/// The bit pattern of positive infinity. Every pattern whose magnitude is
/// greater is a NaN.
pub const INFINITY: u64 = 0x7FF0_0000_0000_0000;

/// The bit pattern of `1.0`, which stands for true.
pub const ONE: u64 = 0x3FF0_0000_0000_0000;

/// The bit pattern of `0.0`, which stands for false.
pub const ZERO: u64 = 0;

/// The bits without the sign bit.
pub open spec fn magnitude(x: u64) -> int {
    if x >= SIGN {
        x - SIGN
    } else {
        x as int
    }
}

/// Is `x` a NaN?
pub open spec fn is_nan(x: u64) -> bool {
    magnitude(x) > INFINITY
}

/// Where a number that is not a NaN stands on the number line: binary64 is a
/// sign-and-magnitude format, so among numbers of one sign the greater
/// magnitude is the one farther from zero, `-0.0` and `0.0` are one point, and
/// the infinities are the two ends.
pub open spec fn rank(x: u64) -> int {
    if x >= SIGN {
        -magnitude(x)
    } else {
        magnitude(x)
    }
}

/// Does `x` count as true? Every number greater than zero does; zero, the
/// negative numbers and the NaNs do not.
pub open spec fn is_true(x: u64) -> bool {
    !is_nan(x) && rank(x) > 0
}

/// The number that stands for a truth value: `1.0` for true, `0.0` for false.
pub open spec fn truth(b: bool) -> u64 {
    if b {
        ONE
    } else {
        ZERO
    }
}

/// Is `x` a NaN?
pub fn nan(x: u64) -> (r: bool)
    ensures
        r == is_nan(x),
{
    if x >= SIGN {
        x - SIGN > INFINITY
    } else {
        x > INFINITY
    }
}

/// Does `x` count as true?
pub fn truthy(x: u64) -> (r: bool)
    ensures
        r == is_true(x),
{
    0 < x && x <= INFINITY
}

/// The number that stands for a truth value.
pub fn from_bool(b: bool) -> (r: u64)
    ensures
        r == truth(b),
        is_true(r) == b,
{
    if b {
        ONE
    } else {
        ZERO
    }
}

/// Where `x` stands on the number line.
fn position(x: u64) -> (k: i128)
    ensures
        k == rank(x),
{
    if x >= SIGN {
        let m: u64 = x - SIGN;
        let k: i128 = m as i128;
        -k
    } else {
        x as i128
    }
}

/// A comparison of two numbers.
#[derive(Debug, Clone, Copy, PartialEq, Eq, Structural)]
pub enum CompOp {
    Eq,
    Lt,
    Gt,
    Le,
    Ge,
}

impl CompOp {
    /// Does the comparison hold of `a` and `b`, in this order? No comparison
    /// holds where one of the two is a NaN.
    pub open spec fn holds(self, a: u64, b: u64) -> bool {
        &&& !is_nan(a)
        &&& !is_nan(b)
        &&& match self {
            CompOp::Eq => rank(a) == rank(b),
            CompOp::Lt => rank(a) < rank(b),
            CompOp::Gt => rank(a) > rank(b),
            CompOp::Le => rank(a) <= rank(b),
            CompOp::Ge => rank(a) >= rank(b),
        }
    }

    /// Does the comparison hold of `a` and `b`, in this order?
    pub fn test(self, a: u64, b: u64) -> (r: bool)
        ensures
            r == self.holds(a, b),
    {
        if nan(a) || nan(b) {
            return false;
        }
        let ka: i128 = position(a);
        let kb: i128 = position(b);
        match self {
            CompOp::Eq => ka == kb,
            CompOp::Lt => ka < kb,
            CompOp::Gt => ka > kb,
            CompOp::Le => ka <= kb,
            CompOp::Ge => ka >= kb,
        }
    }
}

} // verus!
