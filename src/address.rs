use vstd::prelude::*;

verus! {

/// A virtual address in the target process. Zero is the null sentinel; all
/// arithmetic wraps, since intermediate offset computations may overflow.
#[derive(Debug, Clone, Copy, PartialEq, Eq, Structural)]
pub struct Address(pub u64);

impl Address {
    pub fn null() -> (r: Address)
        ensures
            r.0 == 0,
    {
        Address(0)
    }

    pub fn is_null(self) -> (r: bool)
        ensures
            r == (self.0 == 0),
    {
        self.0 == 0
    }

    pub fn non_null(self) -> (r: Option<Address>)
        ensures
            self.0 == 0 ==> r is None,
            self.0 != 0 ==> r == Some(self),
    {
        if self.is_null() {
            None
        } else {
            Some(self)
        }
    }

    pub fn is_valid(self) -> (r: bool)
        ensures
            r == (self.0 != 0),
    {
        self.0 != 0
    }

    pub fn value(self) -> (r: u64)
        ensures
            r == self.0,
    {
        self.0
    }

    /// Wrapping addition.
    pub fn add(self, rhs: Address) -> (r: Address)
        ensures
            r.0 == self.0.wrapping_add(rhs.0),
    {
        Address(self.0.wrapping_add(rhs.0))
    }

    /// Wrapping subtraction.
    pub fn sub(self, rhs: Address) -> (r: Address)
        ensures
            r.0 == self.0.wrapping_sub(rhs.0),
    {
        Address(self.0.wrapping_sub(rhs.0))
    }

    /// Wrapping multiplication.
    pub fn mul(self, rhs: Address) -> (r: Address)
        ensures
            r.0 == self.0.wrapping_mul(rhs.0),
    {
        Address(self.0.wrapping_mul(rhs.0))
    }

    pub fn div(self, rhs: Address) -> (r: Address)
        requires
            rhs.0 != 0,
        ensures
            r.0 == self.0 / rhs.0,
    {
        Address(self.0 / rhs.0)
    }

    pub fn rem(self, rhs: Address) -> (r: Address)
        requires
            rhs.0 != 0,
        ensures
            r.0 == self.0 % rhs.0,
    {
        Address(self.0 % rhs.0)
    }

    pub fn bitand(self, rhs: Address) -> (r: Address)
        ensures
            r.0 == self.0 & rhs.0,
    {
        Address(self.0 & rhs.0)
    }

    pub fn bitor(self, rhs: Address) -> (r: Address)
        ensures
            r.0 == self.0 | rhs.0,
    {
        Address(self.0 | rhs.0)
    }

    pub fn bitxor(self, rhs: Address) -> (r: Address)
        ensures
            r.0 == self.0 ^ rhs.0,
    {
        Address(self.0 ^ rhs.0)
    }

    pub fn shl(self, rhs: u32) -> (r: Address)
        requires
            rhs < 64,
        ensures
            r.0 == self.0 << rhs,
    {
        Address(self.0 << rhs)
    }

    pub fn shr(self, rhs: u32) -> (r: Address)
        requires
            rhs < 64,
        ensures
            r.0 == self.0 >> rhs,
    {
        Address(self.0 >> rhs)
    }
}

impl Default for Address {
    fn default() -> (r: Address)
        ensures
            r.0 == 0,
    {
        Address(0)
    }
}

impl From<u64> for Address {
    fn from(value: u64) -> (r: Address) {
        Address(value)
    }
}

impl vstd::std_specs::convert::FromSpecImpl<u64> for Address {
    open spec fn obeys_from_spec() -> bool {
        true
    }

    open spec fn from_spec(v: u64) -> Address {
        Address(v)
    }
}

impl From<Address> for u64 {
    fn from(value: Address) -> (r: u64) {
        value.0
    }
}

impl vstd::std_specs::convert::FromSpecImpl<Address> for u64 {
    open spec fn obeys_from_spec() -> bool {
        true
    }

    open spec fn from_spec(v: Address) -> u64 {
        v.0
    }
}

} // verus!
