//! A 24-bit unsigned integer, used for Observe sequence numbers.
#![allow(non_camel_case_types)]
use vstd::prelude::*;
use vstd::string::StringExecFns;

use crate::app::text::{decimal, u32_to_decimal};

verus! {

/// Largest value a `u24` holds.
pub open spec fn u24_max() -> nat {
    0xffffff
}

/// Number of distinct `u24` values.
pub open spec fn u24_modulus() -> nat {
    0x1000000
}

/// Unsigned 24-bit integer.
#[derive(Debug, Copy, Clone, PartialEq, Eq, Structural)]
pub struct u24(u32);

/// Error returned when a conversion into or out of `u24` does not fit.
#[derive(Debug, Copy, Clone, PartialEq, Eq, Structural)]
pub struct TryFromCustomIntError;

impl TryFromCustomIntError {
    /// The error's description.
    pub fn describe(&self) -> (r: String)
        ensures
            r@ == "out of range integral type conversion attempted"@,
    {
        String::from_str("out of range integral type conversion attempted")
    }
}

impl View for u24 {
    type V = nat;

    closed spec fn view(&self) -> nat {
        self.0 as nat
    }
}

impl u24 {
    #[verifier::type_invariant]
    spec fn in_range(self) -> bool {
        self.0 <= 0xffffff
    }

    /// The value as a `u32`.
    pub fn value(self) -> (r: u32)
        ensures
            r as nat == self@,
            r <= 0xffffff,
    {
        proof {
            use_type_invariant(&self);
        }
        self.0
    }

    /// Smallest value, zero.
    pub fn min_value() -> (r: u24)
        ensures
            r@ == 0,
    {
        u24(0)
    }

    /// Largest value, `0xffffff`.
    pub fn max_value() -> (r: u24)
        ensures
            r@ == u24_max(),
    {
        u24(0xffffff)
    }

    /// Builds a `u24` from a `u32` that is known to fit.
    pub fn from_u32_in_range(v: u32) -> (r: u24)
        requires
            v <= 0xffffff,
        ensures
            r@ == v,
    {
        u24(v)
    }

    /// Addition that fails instead of overflowing 24 bits.
    pub fn checked_add(self, rhs: Self) -> (r: Option<Self>)
        ensures
            r is Some <==> self@ + rhs@ <= u24_max(),
            r matches Some(v) ==> v@ == self@ + rhs@,
    {
        proof {
            use_type_invariant(&self);
            use_type_invariant(&rhs);
        }
        let sum = self.0 + rhs.0;
        if sum <= 0xffffff {
            Some(u24(sum))
        } else {
            None
        }
    }

    /// Subtraction that fails instead of going below zero.
    pub fn checked_sub(self, rhs: Self) -> (r: Option<Self>)
        ensures
            r is Some <==> rhs@ <= self@,
            r matches Some(v) ==> v@ == self@ - rhs@,
    {
        proof {
            use_type_invariant(&self);
            use_type_invariant(&rhs);
        }
        if rhs.0 <= self.0 {
            Some(u24(self.0 - rhs.0))
        } else {
            None
        }
    }

    /// Addition modulo 2^24.
    pub fn wrapping_add(self, rhs: Self) -> (r: Self)
        ensures
            r@ == (self@ + rhs@) % u24_modulus(),
    {
        proof {
            use_type_invariant(&self);
            use_type_invariant(&rhs);
        }
        let sum = self.0 + rhs.0;
        if sum > 0xffffff {
            u24(sum - 0x1000000)
        } else {
            u24(sum)
        }
    }

    /// Subtraction modulo 2^24.
    pub fn wrapping_sub(self, rhs: Self) -> (r: Self)
        ensures
            r@ == (self@ + u24_modulus() - rhs@) % (u24_modulus() as int),
    {
        proof {
            use_type_invariant(&self);
            use_type_invariant(&rhs);
        }
        if rhs.0 <= self.0 {
            u24(self.0 - rhs.0)
        } else {
            u24(0x1000000 - rhs.0 + self.0)
        }
    }

    /// The value in decimal, as it is displayed.
    pub fn to_decimal_string(&self) -> (r: String)
        ensures
            r@ == decimal(self@),
    {
        proof {
            use_type_invariant(self);
        }
        u32_to_decimal(self.0)
    }

    /// Little-endian decoding of three bytes.
    pub fn from_le_bytes(bytes: [u8; 3]) -> (r: Self)
        ensures
            r@ == bytes[0] + 256 * bytes[1] + 65536 * bytes[2],
    {
        let v: u32 = bytes[0] as u32 + 256 * (bytes[1] as u32) + 65536 * (bytes[2] as u32);
        u24(v)
    }
}

impl core::ops::Add for u24 {
    type Output = u24;

    /// Addition; the sum must fit in 24 bits (the operator's precondition).
    fn add(self, rhs: u24) -> (r: u24)
        ensures
            r@ == self@ + rhs@,
    {
        proof {
            use_type_invariant(&self);
            use_type_invariant(&rhs);
        }
        u24(self.0 + rhs.0)
    }
}

impl vstd::std_specs::ops::AddSpecImpl for u24 {
    open spec fn obeys_add_spec() -> bool {
        true
    }

    open spec fn add_req(self, rhs: u24) -> bool {
        self@ + rhs@ <= u24_max()
    }

    closed spec fn add_spec(self, rhs: u24) -> u24 {
        u24((self.0 + rhs.0) as u32)
    }
}

impl From<u8> for u24 {
    fn from(value: u8) -> (r: u24)
        ensures
            r@ == value,
    {
        u24(value as u32)
    }
}

impl vstd::std_specs::convert::FromSpecImpl<u8> for u24 {
    open spec fn obeys_from_spec() -> bool {
        true
    }

    closed spec fn from_spec(v: u8) -> u24 {
        u24(v as u32)
    }
}

impl From<u16> for u24 {
    fn from(value: u16) -> (r: u24)
        ensures
            r@ == value,
    {
        u24(value as u32)
    }
}

impl vstd::std_specs::convert::FromSpecImpl<u16> for u24 {
    open spec fn obeys_from_spec() -> bool {
        true
    }

    closed spec fn from_spec(v: u16) -> u24 {
        u24(v as u32)
    }
}

impl TryFrom<u32> for u24 {
    type Error = TryFromCustomIntError;

    fn try_from(value: u32) -> (r: Result<u24, TryFromCustomIntError>)
        ensures
            r is Ok <==> value <= 0xffffff,
            r matches Ok(v) ==> v@ == value,
    {
        if value > 0xffffff {
            Err(TryFromCustomIntError)
        } else {
            Ok(u24(value))
        }
    }
}

impl vstd::std_specs::convert::TryFromSpecImpl<u32> for u24 {
    open spec fn obeys_try_from_spec() -> bool {
        true
    }

    closed spec fn try_from_spec(v: u32) -> Result<u24, TryFromCustomIntError> {
        if v > 0xffffff {
            Err(TryFromCustomIntError)
        } else {
            Ok(u24(v))
        }
    }
}

impl TryFrom<u64> for u24 {
    type Error = TryFromCustomIntError;

    fn try_from(value: u64) -> (r: Result<u24, TryFromCustomIntError>)
        ensures
            r is Ok <==> value <= 0xffffff,
            r matches Ok(v) ==> v@ == value,
    {
        if value > 0xffffff {
            Err(TryFromCustomIntError)
        } else {
            Ok(u24(value as u32))
        }
    }
}

impl vstd::std_specs::convert::TryFromSpecImpl<u64> for u24 {
    open spec fn obeys_try_from_spec() -> bool {
        true
    }

    closed spec fn try_from_spec(v: u64) -> Result<u24, TryFromCustomIntError> {
        if v > 0xffffff {
            Err(TryFromCustomIntError)
        } else {
            Ok(u24(v as u32))
        }
    }
}

impl TryFrom<u24> for u8 {
    type Error = TryFromCustomIntError;

    fn try_from(value: u24) -> (r: Result<u8, TryFromCustomIntError>)
        ensures
            r is Ok <==> value@ <= 0xff,
            r matches Ok(v) ==> v == value@,
    {
        if value.0 > 0xff {
            Err(TryFromCustomIntError)
        } else {
            Ok(value.0 as u8)
        }
    }
}

impl vstd::std_specs::convert::TryFromSpecImpl<u24> for u8 {
    open spec fn obeys_try_from_spec() -> bool {
        true
    }

    closed spec fn try_from_spec(v: u24) -> Result<u8, TryFromCustomIntError> {
        if v.0 > 0xff {
            Err(TryFromCustomIntError)
        } else {
            Ok(v.0 as u8)
        }
    }
}

impl TryFrom<u24> for u16 {
    type Error = TryFromCustomIntError;

    fn try_from(value: u24) -> (r: Result<u16, TryFromCustomIntError>)
        ensures
            r is Ok <==> value@ <= 0xffff,
            r matches Ok(v) ==> v == value@,
    {
        if value.0 > 0xffff {
            Err(TryFromCustomIntError)
        } else {
            Ok(value.0 as u16)
        }
    }
}

impl vstd::std_specs::convert::TryFromSpecImpl<u24> for u16 {
    open spec fn obeys_try_from_spec() -> bool {
        true
    }

    closed spec fn try_from_spec(v: u24) -> Result<u16, TryFromCustomIntError> {
        if v.0 > 0xffff {
            Err(TryFromCustomIntError)
        } else {
            Ok(v.0 as u16)
        }
    }
}

impl From<u24> for u32 {
    fn from(value: u24) -> (r: u32)
        ensures
            r == value@,
    {
        value.0
    }
}

impl vstd::std_specs::convert::FromSpecImpl<u24> for u32 {
    open spec fn obeys_from_spec() -> bool {
        true
    }

    closed spec fn from_spec(v: u24) -> u32 {
        v.0
    }
}

impl From<u24> for u64 {
    fn from(value: u24) -> (r: u64)
        ensures
            r == value@,
    {
        value.0 as u64
    }
}

impl vstd::std_specs::convert::FromSpecImpl<u24> for u64 {
    open spec fn obeys_from_spec() -> bool {
        true
    }

    closed spec fn from_spec(v: u24) -> u64 {
        v.0 as u64
    }
}

/// Wrapping subtraction undoes wrapping addition: `a.wrapping_add(b).wrapping_sub(b) == a`.
pub proof fn law_wrapping_sub_undoes_wrapping_add(a: nat, b: nat)
    requires
        a <= u24_max(),
        b <= u24_max(),
    ensures
        (((a + b) % u24_modulus()) + u24_modulus() - b) % (u24_modulus() as int) == a,
{
    if a + b >= u24_modulus() {
        assert((a + b) % u24_modulus() == a + b - u24_modulus());
        assert(a + b - u24_modulus() + u24_modulus() - b == a);
    } else {
        assert((a + b) % u24_modulus() == a + b);
        assert(((a + b) + u24_modulus() - b) == a + u24_modulus());
    }
}

/// Where the checked sum exists it agrees with the wrapping sum; where it does not, the
/// wrapping sum wrapped around, landing below both operands.
pub proof fn law_checked_add_agrees_with_wrapping_add(a: nat, b: nat)
    requires
        a <= u24_max(),
        b <= u24_max(),
    ensures
        a + b <= u24_max() ==> (a + b) % u24_modulus() == a + b,
        a + b > u24_max() ==> (a + b) % u24_modulus() < a && (a + b) % u24_modulus() < b,
{
    if a + b > u24_max() {
        assert((a + b) % u24_modulus() == a + b - u24_modulus());
    }
}

} // verus!
