//! Small value types shared by the box payloads.
use crate::wire::be_uint;
use vstd::prelude::*;

verus! {

/// A four-character code, as it stands in the stream.
#[derive(Clone, Copy, Debug, PartialEq, Eq)]
pub struct FourCC {
    pub value: [u8; 4],
}

/// The code whose bytes are the big-endian bytes of `n`.
pub open spec fn fourcc_of(n: u32) -> FourCC {
    FourCC {
        value: [
            (n / 0x100_0000) as u8,
            ((n / 0x1_0000) % 0x100) as u8,
            ((n / 0x100) % 0x100) as u8,
            (n % 0x100) as u8,
        ],
    }
}

impl FourCC {
    /// The code whose bytes are the big-endian bytes of `n`.
    pub fn from_u32(n: u32) -> (r: FourCC)
        ensures
            r == fourcc_of(n),
            be_uint(r.value@) == n,
            r.value@.len() == 4,
    {
        let a = (n / 0x100_0000) as u8;
        let b = ((n / 0x1_0000) % 0x100) as u8;
        let c = ((n / 0x100) % 0x100) as u8;
        let d = (n % 0x100) as u8;
        let r = FourCC { value: [a, b, c, d] };
        proof {
            let s = r.value@;
            assert(s.drop_last().drop_last().drop_last().drop_last() =~= Seq::<u8>::empty());
            assert(s.drop_last().drop_last().drop_last() =~= seq![a]);
            assert(s.drop_last().drop_last() =~= seq![a, b]);
            assert(s.drop_last() =~= seq![a, b, c]);
            reveal_with_fuel(be_uint, 5);
        }
        r
    }

    /// The code read back as a big-endian integer.
    pub fn to_u32(&self) -> (r: u32)
        ensures
            r == be_uint(self.value@),
    {
        let v = self.value;
        proof {
            let s = v@;
            assert(s.drop_last().drop_last().drop_last().drop_last() =~= Seq::<u8>::empty());
            assert(s.drop_last().drop_last().drop_last() =~= seq![v[0]]);
            assert(s.drop_last().drop_last() =~= seq![v[0], v[1]]);
            assert(s.drop_last() =~= seq![v[0], v[1], v[2]]);
            reveal_with_fuel(be_uint, 5);
        }
        v[0] as u32 * 0x100_0000 + v[1] as u32 * 0x1_0000 + v[2] as u32 * 0x100 + v[3] as u32
    }
}

impl From<u32> for FourCC {
    fn from(n: u32) -> FourCC {
        FourCC::from_u32(n)
    }
}

impl vstd::std_specs::convert::FromSpecImpl<u32> for FourCC {
    open spec fn obeys_from_spec() -> bool {
        true
    }

    open spec fn from_spec(n: u32) -> FourCC {
        fourcc_of(n)
    }
}

impl From<FourCC> for u32 {
    fn from(f: FourCC) -> u32 {
        f.to_u32()
    }
}

impl vstd::std_specs::convert::FromSpecImpl<FourCC> for u32 {
    open spec fn obeys_from_spec() -> bool {
        true
    }

    open spec fn from_spec(f: FourCC) -> u32 {
        be_uint(f.value@) as u32
    }
}

/// The integer part of `a / d`, rounded toward zero.
pub open spec fn trunc_div(a: int, d: int) -> int {
    if a >= 0 {
        a / d
    } else {
        -((-a) / d)
    }
}

/// An unsigned 8.8 fixed-point number, kept as its raw 16 bits.
#[derive(Clone, Copy, Debug, PartialEq, Eq, Structural)]
pub struct FixedPointU8 {
    pub raw: u16,
}

impl FixedPointU8 {
    /// The number with integer part `val` and no fraction.
    pub fn new(val: u8) -> (r: Self)
        ensures
            r.raw == val * 0x100,
    {
        FixedPointU8 { raw: val as u16 * 0x100 }
    }

    pub fn new_raw(val: u16) -> (r: Self)
        ensures
            r.raw == val,
    {
        FixedPointU8 { raw: val }
    }

    /// The integer part.
    pub fn value(&self) -> (r: u8)
        ensures
            r == self.raw / 0x100,
    {
        (self.raw / 0x100) as u8
    }

    pub fn raw_value(&self) -> (r: u16)
        ensures
            r == self.raw,
    {
        self.raw
    }
}

/// A signed 8.8 fixed-point number, kept as its raw 16 bits.
#[derive(Clone, Copy, Debug, PartialEq, Eq, Structural)]
pub struct FixedPointI8 {
    pub raw: i16,
}

impl FixedPointI8 {
    /// The number with integer part `val` and no fraction.
    pub fn new(val: i8) -> (r: Self)
        ensures
            r.raw == val * 0x100,
    {
        FixedPointI8 { raw: val as i16 * 0x100 }
    }

    pub fn new_raw(val: i16) -> (r: Self)
        ensures
            r.raw == val,
    {
        FixedPointI8 { raw: val }
    }

    /// The integer part, rounded toward zero.
    pub fn value(&self) -> (r: i8)
        ensures
            r == trunc_div(self.raw as int, 0x100),
    {
        let a = self.raw as i32;
        if a >= 0 {
            (a / 0x100) as i8
        } else {
            (0 - (0 - a) / 0x100) as i8
        }
    }

    pub fn raw_value(&self) -> (r: i16)
        ensures
            r == self.raw,
    {
        self.raw
    }
}

/// An unsigned 16.16 fixed-point number, kept as its raw 32 bits.
#[derive(Clone, Copy, Debug, PartialEq, Eq, Structural)]
pub struct FixedPointU16 {
    pub raw: u32,
}

impl FixedPointU16 {
    /// The number with integer part `val` and no fraction.
    pub fn new(val: u16) -> (r: Self)
        ensures
            r.raw == val * 0x1_0000,
    {
        FixedPointU16 { raw: val as u32 * 0x1_0000 }
    }

    pub fn new_raw(val: u32) -> (r: Self)
        ensures
            r.raw == val,
    {
        FixedPointU16 { raw: val }
    }

    /// The integer part.
    pub fn value(&self) -> (r: u16)
        ensures
            r == self.raw / 0x1_0000,
    {
        (self.raw / 0x1_0000) as u16
    }

    pub fn raw_value(&self) -> (r: u32)
        ensures
            r == self.raw,
    {
        self.raw
    }
}

} // verus!
