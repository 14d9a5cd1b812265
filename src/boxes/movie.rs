//! `mvhd` and `tkhd`: the movie and track headers.
use crate::boxes::{Ibox, ReadBox};
use crate::wire::{be_at, fits, i32_at, i32_of, u16_at, u32_at, u64_at, Error, Reason};
use crate::header::{read_box_header_ext, BoxHeader};
use crate::registry::BoxType;
use crate::types::{FixedPointU16, FixedPointU8};
use vstd::prelude::*;

verus! {

/// A 3x3 transformation matrix, as nine 32-bit values.
#[derive(Clone, Copy, Debug, PartialEq, Eq, Structural)]
pub struct Matrix {
    pub a: i32,
    pub b: i32,
    pub u: i32,
    pub c: i32,
    pub d: i32,
    pub v: i32,
    pub x: i32,
    pub y: i32,
    pub w: i32,
}

/// Whether `m` is the matrix stored at `p`.
pub open spec fn matrix_decodes(b: Seq<u8>, p: int, m: Matrix) -> bool {
    &&& m.a == i32_of(be_at(b, p, 4))
    &&& m.b == i32_of(be_at(b, p + 4, 4))
    &&& m.u == i32_of(be_at(b, p + 8, 4))
    &&& m.c == i32_of(be_at(b, p + 12, 4))
    &&& m.d == i32_of(be_at(b, p + 16, 4))
    &&& m.v == i32_of(be_at(b, p + 20, 4))
    &&& m.x == i32_of(be_at(b, p + 24, 4))
    &&& m.y == i32_of(be_at(b, p + 28, 4))
    &&& m.w == i32_of(be_at(b, p + 32, 4))
}

/// Reads the matrix stored at `p`.
pub fn matrix_at(b: &[u8], p: usize) -> (m: Matrix)
    requires
        fits(b@, p as int, 36),
    ensures
        matrix_decodes(b@, p as int, m),
{
    let _len = b.len();
    Matrix {
        a: i32_at(b, p),
        b: i32_at(b, p + 4),
        u: i32_at(b, p + 8),
        c: i32_at(b, p + 12),
        d: i32_at(b, p + 16),
        v: i32_at(b, p + 20),
        x: i32_at(b, p + 24),
        y: i32_at(b, p + 28),
        w: i32_at(b, p + 32),
    }
}

/// Bytes that the times take after the version and flags: 64-bit times in
/// version 1, 32-bit ones in version 0.
pub open spec fn mvhd_times_len(version: nat) -> int {
    if version == 1 {
        28
    } else {
        16
    }
}

#[derive(Clone, Copy, Debug, PartialEq, Eq)]
pub struct MvhdBox {
    pub version: u8,
    pub flags: u32,
    pub creation_time: u64,
    pub modification_time: u64,
    pub timescale: u32,
    pub duration: u64,
    pub rate: FixedPointU16,
    pub volume: FixedPointU8,
    pub matrix: Matrix,
    pub next_track_id: u32,
}

impl Ibox for MvhdBox {
    open spec fn kind() -> BoxType {
        BoxType::Mvhd
    }

    open spec fn inv(&self) -> bool {
        true
    }

    open spec fn spec_header_size(&self) -> nat {
        12
    }

    open spec fn spec_data_size(&self) -> nat {
        (mvhd_times_len(self.version as nat) + 80) as nat
    }

    fn typ(&self) -> (r: BoxType) {
        BoxType::Mvhd
    }

    fn header_size(&self) -> (r: u64) {
        12
    }

    fn data_size(&self) -> (r: u64) {
        let size: u64 = if self.version == 1 { 28 } else { 16 };
        size + 80
    }
}

impl ReadBox for MvhdBox {
    open spec fn outcome(b: Seq<u8>, pos: int, h: BoxHeader) -> Result<nat, Error> {
        if !fits(b, pos, 4) {
            Err(Error::UnexpectedEof)
        } else if be_at(b, pos, 1) > 1 {
            Err(Error::InvalidData(Reason::BadVersion))
        } else if !fits(b, pos, 4 + mvhd_times_len(be_at(b, pos, 1)) + 80) {
            Err(Error::UnexpectedEof)
        } else {
            Ok((12 + mvhd_times_len(be_at(b, pos, 1)) + 80) as nat)
        }
    }

    open spec fn decodes(b: Seq<u8>, pos: int, h: BoxHeader, x: Self) -> bool {
        let q = pos + 4 + mvhd_times_len(x.version as nat);
        &&& x.version == be_at(b, pos, 1)
        &&& x.flags == be_at(b, pos + 1, 3)
        &&& if x.version == 1 {
            &&& x.creation_time == be_at(b, pos + 4, 8)
            &&& x.modification_time == be_at(b, pos + 12, 8)
            &&& x.timescale == be_at(b, pos + 20, 4)
            &&& x.duration == be_at(b, pos + 24, 8)
        } else {
            &&& x.creation_time == be_at(b, pos + 4, 4)
            &&& x.modification_time == be_at(b, pos + 8, 4)
            &&& x.timescale == be_at(b, pos + 12, 4)
            &&& x.duration == be_at(b, pos + 16, 4)
        }
        &&& x.rate.raw == be_at(b, q, 4)
        &&& x.volume.raw == be_at(b, q + 4, 2)
        &&& matrix_decodes(b, q + 16, x.matrix)
        &&& x.next_track_id == be_at(b, q + 76, 4)
    }

    fn read(b: &[u8], pos: usize, h: &BoxHeader) -> (r: Result<Self, Error>) {
        let (version, flags) = read_box_header_ext(b, pos)?;
        if version > 1 {
            return Err(Error::InvalidData(Reason::BadVersion));
        }
        let times: usize = if version == 1 { 28 } else { 16 };
        if b.len() - pos < 4 + times + 80 {
            return Err(Error::UnexpectedEof);
        }
        let (creation_time, modification_time, timescale, duration) = if version == 1 {
            (u64_at(b, pos + 4), u64_at(b, pos + 12), u32_at(b, pos + 20), u64_at(b, pos + 24))
        } else {
            (u32_at(b, pos + 4) as u64, u32_at(b, pos + 8) as u64, u32_at(b, pos + 12), u32_at(b, pos + 16) as u64)
        };
        let q = pos + 4 + times;
        Ok(MvhdBox {
            version,
            flags,
            creation_time,
            modification_time,
            timescale,
            duration,
            rate: FixedPointU16::new_raw(u32_at(b, q)),
            volume: FixedPointU8::new_raw(u16_at(b, q + 4)),
            matrix: matrix_at(b, q + 16),
            next_track_id: u32_at(b, q + 76),
        })
    }
}

/// Bytes that the times, track id and duration take after the version and
/// flags: 64-bit times in version 1, 32-bit ones in version 0.
pub open spec fn tkhd_times_len(version: nat) -> int {
    if version == 1 {
        32
    } else {
        20
    }
}

#[derive(Clone, Copy, Debug, PartialEq, Eq)]
pub struct TkhdBox {
    pub version: u8,
    pub flags: u32,
    pub creation_time: u64,
    pub modification_time: u64,
    pub track_id: u32,
    pub duration: u64,
    pub layer: u16,
    pub alternate_group: u16,
    pub volume: FixedPointU8,
    pub matrix: Matrix,
    pub width: FixedPointU16,
    pub height: FixedPointU16,
}

impl Ibox for TkhdBox {
    open spec fn kind() -> BoxType {
        BoxType::Tkhd
    }

    open spec fn inv(&self) -> bool {
        true
    }

    open spec fn spec_header_size(&self) -> nat {
        12
    }

    open spec fn spec_data_size(&self) -> nat {
        (tkhd_times_len(self.version as nat) + 60) as nat
    }

    fn typ(&self) -> (r: BoxType) {
        BoxType::Tkhd
    }

    fn header_size(&self) -> (r: u64) {
        12
    }

    fn data_size(&self) -> (r: u64) {
        let size: u64 = if self.version == 1 { 32 } else { 20 };
        size + 60
    }
}

impl ReadBox for TkhdBox {
    open spec fn outcome(b: Seq<u8>, pos: int, h: BoxHeader) -> Result<nat, Error> {
        if !fits(b, pos, 4) {
            Err(Error::UnexpectedEof)
        } else if be_at(b, pos, 1) > 1 {
            Err(Error::InvalidData(Reason::BadVersion))
        } else if !fits(b, pos, 4 + tkhd_times_len(be_at(b, pos, 1)) + 60) {
            Err(Error::UnexpectedEof)
        } else {
            Ok((12 + tkhd_times_len(be_at(b, pos, 1)) + 60) as nat)
        }
    }

    open spec fn decodes(b: Seq<u8>, pos: int, h: BoxHeader, x: Self) -> bool {
        let q = pos + 4 + tkhd_times_len(x.version as nat);
        &&& x.version == be_at(b, pos, 1)
        &&& x.flags == be_at(b, pos + 1, 3)
        &&& if x.version == 1 {
            &&& x.creation_time == be_at(b, pos + 4, 8)
            &&& x.modification_time == be_at(b, pos + 12, 8)
            &&& x.track_id == be_at(b, pos + 20, 4)
            &&& x.duration == be_at(b, pos + 28, 8)
        } else {
            &&& x.creation_time == be_at(b, pos + 4, 4)
            &&& x.modification_time == be_at(b, pos + 8, 4)
            &&& x.track_id == be_at(b, pos + 12, 4)
            &&& x.duration == be_at(b, pos + 20, 4)
        }
        &&& x.layer == be_at(b, q + 8, 2)
        &&& x.alternate_group == be_at(b, q + 10, 2)
        &&& x.volume.raw == be_at(b, q + 12, 2)
        &&& matrix_decodes(b, q + 16, x.matrix)
        &&& x.width.raw == be_at(b, q + 52, 4)
        &&& x.height.raw == be_at(b, q + 56, 4)
    }

    fn read(b: &[u8], pos: usize, h: &BoxHeader) -> (r: Result<Self, Error>) {
        let (version, flags) = read_box_header_ext(b, pos)?;
        if version > 1 {
            return Err(Error::InvalidData(Reason::BadVersion));
        }
        let times: usize = if version == 1 { 32 } else { 20 };
        if b.len() - pos < 4 + times + 60 {
            return Err(Error::UnexpectedEof);
        }
        let (creation_time, modification_time, track_id, duration) = if version == 1 {
            (u64_at(b, pos + 4), u64_at(b, pos + 12), u32_at(b, pos + 20), u64_at(b, pos + 28))
        } else {
            (u32_at(b, pos + 4) as u64, u32_at(b, pos + 8) as u64, u32_at(b, pos + 12), u32_at(b, pos + 20) as u64)
        };
        let q = pos + 4 + times;
        Ok(TkhdBox {
            version,
            flags,
            creation_time,
            modification_time,
            track_id,
            duration,
            layer: u16_at(b, q + 8),
            alternate_group: u16_at(b, q + 10),
            volume: FixedPointU8::new_raw(u16_at(b, q + 12)),
            matrix: matrix_at(b, q + 16),
            width: FixedPointU16::new_raw(u32_at(b, q + 52)),
            height: FixedPointU16::new_raw(u32_at(b, q + 56)),
        })
    }
}

} // verus!
