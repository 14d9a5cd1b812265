//! `mdhd`, `hdlr`, `vmhd` and `smhd`: media header, handler and media
//! information headers.
use crate::boxes::movie::mvhd_times_len;
use crate::boxes::{fourcc_at, Ibox, ReadBox};
use crate::wire::{
    be_at, bytes_at, fits, i16_at, i16_of, lemma_utf8_bytes, u16_at, u32_at, u64_at, utf8_string, Error,
    Reason,
};
use crate::header::{read_box_header_ext, BoxHeader};
use crate::registry::BoxType;
use crate::types::{FixedPointI8, FourCC};
use vstd::prelude::*;
use vstd::utf8::{decode_utf8, encode_utf8, is_ascii_chars, is_ascii_chars_encode_utf8, valid_utf8};

verus! {

/// The three letters packed five bits each in a language code, as ASCII
/// bytes from `0x60` on.
pub open spec fn language_bytes(code: int) -> Seq<u8> {
    seq![
        ((code / 1024) % 32 + 0x60) as u8,
        ((code / 32) % 32 + 0x60) as u8,
        (code % 32 + 0x60) as u8,
    ]
}

/// The language code `language` spelled out as three letters.
pub fn language_string(language: u16) -> (r: String)
    ensures
        encode_utf8(r@) == language_bytes(language as int),
{
    let c0 = ((language / 1024) % 32 + 0x60) as u8;
    let c1 = ((language / 32) % 32 + 0x60) as u8;
    let c2 = (language % 32 + 0x60) as u8;
    let v: Vec<u8> = vec![c0, c1, c2];
    proof {
        assert(v@ =~= language_bytes(language as int));
        let s1 = v@.subrange(1, 3);
        let s2 = v@.subrange(2, 3);
        let s3 = v@.subrange(3, 3);
        assert(s3.len() == 0);
        assert(valid_utf8(s3));
        assert(s2.subrange(1, 1) =~= s3);
        assert(valid_utf8(s2));
        assert(s1.subrange(1, 2) =~= s2);
        assert(valid_utf8(s1));
        assert(v@.subrange(1, 3) =~= s1);
        assert(valid_utf8(v@));
        lemma_utf8_bytes(v@);
    }
    match utf8_string(v) {
        Some(s) => s,
        None => {
            assert(false);
            String::new()
        },
    }
}

#[derive(Clone, Debug, PartialEq, Eq)]
pub struct MdhdBox {
    pub version: u8,
    pub flags: u32,
    pub creation_time: u64,
    pub modification_time: u64,
    pub timescale: u32,
    pub duration: u64,
    pub language: String,
}

impl Ibox for MdhdBox {
    open spec fn kind() -> BoxType {
        BoxType::Mdhd
    }

    open spec fn inv(&self) -> bool {
        true
    }

    open spec fn spec_header_size(&self) -> nat {
        12
    }

    open spec fn spec_data_size(&self) -> nat {
        (mvhd_times_len(self.version as nat) + 4) as nat
    }

    fn typ(&self) -> (r: BoxType) {
        BoxType::Mdhd
    }

    fn header_size(&self) -> (r: u64) {
        12
    }

    fn data_size(&self) -> (r: u64) {
        let mut size: u64 = if self.version == 1 { 28 } else { 16 };
        size = size + 4;
        size
    }
}

impl ReadBox for MdhdBox {
    open spec fn outcome(b: Seq<u8>, pos: int, h: BoxHeader) -> Result<nat, Error> {
        if !fits(b, pos, 4) {
            Err(Error::UnexpectedEof)
        } else if be_at(b, pos, 1) > 1 {
            Err(Error::InvalidData(Reason::BadVersion))
        } else if !fits(b, pos, 4 + mvhd_times_len(be_at(b, pos, 1)) + 2) {
            Err(Error::UnexpectedEof)
        } else {
            Ok((12 + mvhd_times_len(be_at(b, pos, 1)) + 4) as nat)
        }
    }

    open spec fn decodes(b: Seq<u8>, pos: int, h: BoxHeader, x: Self) -> bool {
        let q = pos + 4 + mvhd_times_len(x.version as nat);
        &&& x.version == be_at(b, pos, 1)
        &&& x.flags == be_at(b, pos + 1, 3)
        &&& if x.version == 1 {
            &&& x.creation_time == be_at(b, pos + 4, 8)
            &&& x.modification_time == be_at(b, pos + 12, 8)
            &&& x.timescale == be_at(b, pos + 20, 4)
            &&& x.duration == be_at(b, pos + 24, 8)
        } else {
            &&& x.creation_time == be_at(b, pos + 4, 4)
            &&& x.modification_time == be_at(b, pos + 8, 4)
            &&& x.timescale == be_at(b, pos + 12, 4)
            &&& x.duration == be_at(b, pos + 16, 4)
        }
        &&& encode_utf8(x.language@) == language_bytes(be_at(b, q, 2) as int)
    }

    fn read(b: &[u8], pos: usize, h: &BoxHeader) -> (r: Result<Self, Error>) {
        let (version, flags) = read_box_header_ext(b, pos)?;
        if version > 1 {
            return Err(Error::InvalidData(Reason::BadVersion));
        }
        let times: usize = if version == 1 { 28 } else { 16 };
        if b.len() - pos < 4 + times + 2 {
            return Err(Error::UnexpectedEof);
        }
        let (creation_time, modification_time, timescale, duration) = if version == 1 {
            (u64_at(b, pos + 4), u64_at(b, pos + 12), u32_at(b, pos + 20), u64_at(b, pos + 24))
        } else {
            (u32_at(b, pos + 4) as u64, u32_at(b, pos + 8) as u64, u32_at(b, pos + 12), u32_at(b, pos + 16) as u64)
        };
        let language = language_string(u16_at(b, pos + 4 + times));
        Ok(MdhdBox { version, flags, creation_time, modification_time, timescale, duration, language })
    }
}

/// The name an `hdlr` box gets when its name bytes are not valid UTF-8.
pub open spec fn null_name() -> Seq<char> {
    seq!['n', 'u', 'l', 'l']
}

/// The number of name bytes an `hdlr` box with header `h` holds.
pub open spec fn hdlr_name_len(h: BoxHeader) -> int {
    h.size - 33
}

/// The name bytes of an `hdlr` box whose data starts at `pos`.
pub open spec fn hdlr_name_bytes(b: Seq<u8>, pos: int, h: BoxHeader) -> Seq<u8> {
    if hdlr_name_len(h) == 0 {
        seq![]
    } else {
        b.subrange(pos + 24, pos + 24 + hdlr_name_len(h))
    }
}

/// Whether `n` bytes can be read at `p`; reading none always succeeds.
pub open spec fn readable(b: Seq<u8>, p: int, n: int) -> bool {
    n == 0 || fits(b, p, n)
}

#[derive(Clone, Debug, PartialEq, Eq)]
pub struct HdlrBox {
    pub version: u8,
    pub flags: u32,
    pub handler_type: FourCC,
    pub name: String,
}

impl Ibox for HdlrBox {
    open spec fn kind() -> BoxType {
        BoxType::Hdlr
    }

    open spec fn inv(&self) -> bool {
        encode_utf8(self.name@).len() <= usize::MAX && encode_utf8(self.name@).len() + 33 <= u64::MAX
    }

    open spec fn spec_header_size(&self) -> nat {
        12
    }

    open spec fn spec_data_size(&self) -> nat {
        20 + encode_utf8(self.name@).len() + 1
    }

    fn typ(&self) -> (r: BoxType) {
        BoxType::Hdlr
    }

    fn header_size(&self) -> (r: u64) {
        12
    }

    fn data_size(&self) -> (r: u64) {
        20 + self.name.as_str().len() as u64 + 1
    }
}

impl ReadBox for HdlrBox {
    open spec fn outcome(b: Seq<u8>, pos: int, h: BoxHeader) -> Result<nat, Error> {
        let n = hdlr_name_len(h);
        if !fits(b, pos, 12) {
            Err(Error::UnexpectedEof)
        } else if n < 0 {
            Err(Error::InvalidData(Reason::HdlrSizeTooSmall))
        } else if !readable(b, pos + 24, n) {
            Err(Error::UnexpectedEof)
        } else if valid_utf8(hdlr_name_bytes(b, pos, h)) {
            Ok((33 + n) as nat)
        } else {
            Ok(37)
        }
    }

    open spec fn decodes(b: Seq<u8>, pos: int, h: BoxHeader, x: Self) -> bool {
        let name = hdlr_name_bytes(b, pos, h);
        &&& x.version == be_at(b, pos, 1)
        &&& x.flags == be_at(b, pos + 1, 3)
        &&& x.handler_type.value@ == b.subrange(pos + 8, pos + 12)
        &&& if valid_utf8(name) {
            encode_utf8(x.name@) == name
        } else {
            x.name@ == null_name()
        }
    }

    fn read(b: &[u8], pos: usize, h: &BoxHeader) -> (r: Result<Self, Error>) {
        let (version, flags) = read_box_header_ext(b, pos)?;
        if b.len() - pos < 12 {
            return Err(Error::UnexpectedEof);
        }
        let _len = b.len();
        let handler_type = fourcc_at(b, pos + 8);
        if h.size < 33 {
            return Err(Error::InvalidData(Reason::HdlrSizeTooSmall));
        }
        let n = h.size - 33;
        let buf: Vec<u8> = if n == 0 {
            Vec::new()
        } else if b.len() - pos < 24 || ((b.len() - pos - 24) as u64) < n {
            return Err(Error::UnexpectedEof);
        } else {
            bytes_at(b, pos + 24, n as usize)
        };
        let ghost bytes = buf@;
        assert(bytes =~= hdlr_name_bytes(b@, pos as int, *h));
        let name = match utf8_string(buf) {
            Some(t) => {
                proof {
                    lemma_utf8_bytes(bytes);
                }
                t
            },
            None => {
                let t = "null".to_owned();
                proof {
                    reveal_strlit("null");
                    assert(t@ =~= null_name());
                    assert(is_ascii_chars(null_name()));
                    is_ascii_chars_encode_utf8(null_name());
                }
                t
            },
        };
        Ok(HdlrBox { version, flags, handler_type, name })
    }
}

#[derive(Clone, Copy, Debug, PartialEq, Eq, Default)]
pub struct RgbColor {
    pub red: u16,
    pub green: u16,
    pub blue: u16,
}

#[derive(Clone, Copy, Debug, PartialEq, Eq)]
pub struct VmhdBox {
    pub version: u8,
    pub flags: u32,
    pub graphics_mode: u16,
    pub op_color: RgbColor,
}

impl Ibox for VmhdBox {
    open spec fn kind() -> BoxType {
        BoxType::Vmhd
    }

    open spec fn inv(&self) -> bool {
        true
    }

    open spec fn spec_header_size(&self) -> nat {
        12
    }

    open spec fn spec_data_size(&self) -> nat {
        8
    }

    fn typ(&self) -> (r: BoxType) {
        BoxType::Vmhd
    }

    fn header_size(&self) -> (r: u64) {
        12
    }

    fn data_size(&self) -> (r: u64) {
        8
    }
}

impl ReadBox for VmhdBox {
    open spec fn outcome(b: Seq<u8>, pos: int, h: BoxHeader) -> Result<nat, Error> {
        if fits(b, pos, 12) {
            Ok(20)
        } else {
            Err(Error::UnexpectedEof)
        }
    }

    open spec fn decodes(b: Seq<u8>, pos: int, h: BoxHeader, x: Self) -> bool {
        &&& x.version == be_at(b, pos, 1)
        &&& x.flags == be_at(b, pos + 1, 3)
        &&& x.graphics_mode == be_at(b, pos + 4, 2)
        &&& x.op_color.red == be_at(b, pos + 6, 2)
        &&& x.op_color.green == be_at(b, pos + 8, 2)
        &&& x.op_color.blue == be_at(b, pos + 10, 2)
    }

    fn read(b: &[u8], pos: usize, h: &BoxHeader) -> (r: Result<Self, Error>) {
        let (version, flags) = read_box_header_ext(b, pos)?;
        if b.len() - pos < 12 {
            return Err(Error::UnexpectedEof);
        }
        let graphics_mode = u16_at(b, pos + 4);
        let op_color = RgbColor { red: u16_at(b, pos + 6), green: u16_at(b, pos + 8), blue: u16_at(b, pos + 10) };
        Ok(VmhdBox { version, flags, graphics_mode, op_color })
    }
}

#[derive(Clone, Copy, Debug, PartialEq, Eq)]
pub struct SmhdBox {
    pub version: u8,
    pub flags: u32,
    pub balance: FixedPointI8,
}

impl Ibox for SmhdBox {
    open spec fn kind() -> BoxType {
        BoxType::Smhd
    }

    open spec fn inv(&self) -> bool {
        true
    }

    open spec fn spec_header_size(&self) -> nat {
        12
    }

    open spec fn spec_data_size(&self) -> nat {
        4
    }

    fn typ(&self) -> (r: BoxType) {
        BoxType::Smhd
    }

    fn header_size(&self) -> (r: u64) {
        12
    }

    fn data_size(&self) -> (r: u64) {
        4
    }
}

impl ReadBox for SmhdBox {
    open spec fn outcome(b: Seq<u8>, pos: int, h: BoxHeader) -> Result<nat, Error> {
        if fits(b, pos, 6) {
            Ok(16)
        } else {
            Err(Error::UnexpectedEof)
        }
    }

    open spec fn decodes(b: Seq<u8>, pos: int, h: BoxHeader, x: Self) -> bool {
        &&& x.version == be_at(b, pos, 1)
        &&& x.flags == be_at(b, pos + 1, 3)
        &&& x.balance.raw == i16_of(be_at(b, pos + 4, 2))
    }

    fn read(b: &[u8], pos: usize, h: &BoxHeader) -> (r: Result<Self, Error>) {
        let (version, flags) = read_box_header_ext(b, pos)?;
        if b.len() - pos < 6 {
            return Err(Error::UnexpectedEof);
        }
        let balance = FixedPointI8::new_raw(i16_at(b, pos + 4));
        Ok(SmhdBox { version, flags, balance })
    }
}

} // verus!
