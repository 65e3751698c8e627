//! Finite floating point observation values, held by their IEEE 754 bits.
//!
//! Consumers diff successive observations to detect change, which needs exact
//! comparison. `NaN` is unequal to itself, so one non-finite value would make
//! a resource appear changed on every comparison. The model therefore admits
//! only finite values, with the two zeros collapsed into one, and orders them
//! by the IEEE 754 `totalOrder` key.

use vstd::prelude::*;

use crate::order::Order;
use crate::text::append;

verus! {

/// The sign bit of a double.
pub const SIGN_BIT: u64 = 0x8000_0000_0000_0000u64;

/// The exponent field of a double's bits.
pub open spec fn exponent_of(bits: u64) -> u64 {
    (bits >> 52u64) & 0x7ffu64
}

/// The fraction field of a double's bits.
pub open spec fn fraction_of(bits: u64) -> u64 {
    bits & 0x000f_ffff_ffff_ffffu64
}

/// The bits of a finite double: the exponent is not all ones.
pub open spec fn is_finite_bits(bits: u64) -> bool {
    exponent_of(bits) != 0x7ffu64
}

/// The IEEE 754 `totalOrder` key of a double's bits, as a mathematical
/// integer: non-negative values key by their bits, negative ones sort below
/// every non-negative one with larger magnitudes lower.
pub open spec fn total_order_key(bits: u64) -> int {
    if bits < SIGN_BIT {
        bits as int
    } else {
        -((bits - SIGN_BIT) as int) - 1
    }
}

/// The bits a finite double is stored as: negative zero becomes positive zero.
pub open spec fn normalized_bits(bits: u64) -> u64 {
    if bits == SIGN_BIT {
        0
    } else {
        bits
    }
}

/// The three ways a double can fail to be finite.
#[derive(Clone, Copy, Debug, PartialEq, Eq, Structural, Hash)]
pub enum NonFiniteError {
    NaN,
    PositiveInfinity,
    NegativeInfinity,
}

/// What a non-finite double says of itself.
pub open spec fn non_finite_text(error: NonFiniteError) -> Seq<char> {
    "observation values must be finite, got "@ + match error {
        NonFiniteError::NaN => "NaN"@,
        NonFiniteError::PositiveInfinity => "positive infinity"@,
        NonFiniteError::NegativeInfinity => "negative infinity"@,
    }
}

impl NonFiniteError {
    /// The human-readable description of the rejection.
    pub fn message(&self) -> (text: String)
        ensures
            text@ == non_finite_text(*self),
    {
        let classification = match self {
            NonFiniteError::NaN => "NaN",
            NonFiniteError::PositiveInfinity => "positive infinity",
            NonFiniteError::NegativeInfinity => "negative infinity",
        };
        let mut text = String::new();
        append(&mut text, "observation values must be finite, got ");
        append(&mut text, classification);
        proof {
            assert(text@ =~= non_finite_text(*self));
        }
        text
    }
}

/// A floating point observation value that is never `NaN` or infinite, and
/// never negative zero.
///
/// An unmeasurable quantity is expressed as absence, never a sentinel float.
#[derive(Clone, Copy, Debug, PartialEq, Eq, Structural, Hash)]
pub struct Finite {
    bits: u64,
}

impl Finite {
    #[verifier::type_invariant]
    spec fn normal(self) -> bool {
        is_finite_bits(self.bits) && self.bits != SIGN_BIT
    }

    /// The IEEE 754 bits of the value.
    pub closed spec fn bits_of(self) -> u64 {
        self.bits
    }

    /// The value's position in the total order.
    pub open spec fn order_key(self) -> int {
        total_order_key(self.bits_of())
    }

    /// Positive zero.
    pub fn zero() -> (zero: Finite)
        ensures
            zero.bits_of() == 0,
    {
        proof {
            assert(exponent_of(0u64) == 0u64) by (bit_vector);
        }
        Finite { bits: 0 }
    }

    /// Accepts the bits of a finite double, normalising negative zero.
    ///
    /// Returns which kind of non-finite value the bits encode otherwise.
    pub fn from_bits(bits: u64) -> (made: Result<Finite, NonFiniteError>)
        ensures
            match made {
                Ok(value) => is_finite_bits(bits) && value.bits_of() == normalized_bits(bits),
                Err(NonFiniteError::NaN) => !is_finite_bits(bits) && fraction_of(bits) != 0,
                Err(NonFiniteError::PositiveInfinity) => !is_finite_bits(bits) && fraction_of(bits) == 0 && bits < SIGN_BIT,
                Err(NonFiniteError::NegativeInfinity) => !is_finite_bits(bits) && fraction_of(bits) == 0 && bits >= SIGN_BIT,
            },
    {
        if (bits >> 52u64) & 0x7ffu64 != 0x7ffu64 {
            if bits == SIGN_BIT {
                return Ok(Finite::zero());
            }
            return Ok(Finite { bits });
        }
        if bits & 0x000f_ffff_ffff_ffffu64 != 0 {
            Err(NonFiniteError::NaN)
        } else if bits < SIGN_BIT {
            Err(NonFiniteError::PositiveInfinity)
        } else {
            Err(NonFiniteError::NegativeInfinity)
        }
    }

    /// The IEEE 754 bits of the value.
    pub fn to_bits(self) -> (bits: u64)
        ensures
            bits == self.bits_of(),
            is_finite_bits(bits),
            bits != SIGN_BIT,
    {
        proof {
            use_type_invariant(self);
        }
        self.bits
    }

    /// Orders two values as IEEE 754 `totalOrder` does.
    pub fn compare(self, other: Finite) -> (order: Order)
        ensures
            (order == Order::Less) == (self.order_key() < other.order_key()),
            (order == Order::Equal) == (self.order_key() == other.order_key()),
            (order == Order::Greater) == (self.order_key() > other.order_key()),
            (order == Order::Equal) == (self == other),
    {
        let a = self.bits;
        let b = other.bits;
        if a < SIGN_BIT && b < SIGN_BIT {
            if a < b {
                Order::Less
            } else if a > b {
                Order::Greater
            } else {
                Order::Equal
            }
        } else if a >= SIGN_BIT && b >= SIGN_BIT {
            if a > b {
                Order::Less
            } else if a < b {
                Order::Greater
            } else {
                Order::Equal
            }
        } else if a >= SIGN_BIT {
            Order::Less
        } else {
            Order::Greater
        }
    }
}

/// Equal values have equal order keys and conversely: the order is total and
/// agrees with equality.
pub proof fn lemma_order_key_injective(a: Finite, b: Finite)
    ensures
        (a.order_key() == b.order_key()) == (a == b),
{
    if a.order_key() == b.order_key() {
        assert(a.bits_of() == b.bits_of());
    }
}

} // verus!
