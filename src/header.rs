//! The fixed box header and the version-and-flags sub-header.
use crate::wire::{be_at, be_uint, byte_base, fits, lemma_byte_base_values, read_be, read_be32, spec_read, Error, Reason};
use crate::registry::{box_type_of, tag_of, BoxType};
use vstd::prelude::*;

verus! {

/// Size of the plain header: 32-bit size and 32-bit tag.
pub const HEADER_SIZE: u64 = 8;

/// Size of the header with a 64-bit extended size.
pub const HEADER_SIZE_LARGE: u64 = 16;

/// A parsed box header. `size` includes the header itself; `offset` is where
/// the box starts in the stream.
#[derive(Clone, Copy, Debug, PartialEq, Eq, Structural)]
pub struct BoxHeader {
    pub typ: BoxType,
    pub size: u64,
    pub offset: u64,
}

/// The header at `pos` and the number of bytes it takes, or why it cannot be read.
pub open spec fn spec_parse_header(b: Seq<u8>, pos: int) -> Result<(BoxHeader, int), Error> {
    if !fits(b, pos, 8) {
        Err(Error::UnexpectedEof)
    } else {
        let size = be_at(b, pos, 4);
        let typ = box_type_of(be_at(b, pos + 4, 4) as u32);
        if size == 1 {
            if !fits(b, pos + 8, 8) {
                Err(Error::UnexpectedEof)
            } else {
                let large = be_at(b, pos + 8, 8);
                if 1 <= large <= 15 {
                    Err(Error::InvalidData(Reason::LargeSizeTooSmall))
                } else {
                    Ok((BoxHeader { typ, size: large as u64, offset: pos as u64 }, 16))
                }
            }
        } else {
            Ok((BoxHeader { typ, size: size as u64, offset: pos as u64 }, 8))
        }
    }
}

/// The header at `pos`, or why it cannot be read.
pub open spec fn spec_header(b: Seq<u8>, pos: int) -> Result<BoxHeader, Error> {
    match spec_parse_header(b, pos) {
        Ok(p) => Ok(p.0),
        Err(e) => Err(e),
    }
}

/// The version byte and 24-bit flags at `pos`, or why they cannot be read.
pub open spec fn spec_header_ext(b: Seq<u8>, pos: int) -> Result<(u8, u32), Error> {
    if fits(b, pos, 4) {
        Ok((be_at(b, pos, 1) as u8, be_at(b, pos + 1, 3) as u32))
    } else {
        Err(Error::UnexpectedEof)
    }
}

/// A header whose 32-bit size is 1 and whose 64-bit extended size is in
/// `1..=15` is rejected as malformed, whatever the other bytes hold.
pub proof fn lemma_large_size_too_small(b: Seq<u8>, pos: int)
    requires
        fits(b, pos, 16),
        be_at(b, pos, 4) == 1,
        1 <= be_at(b, pos + 8, 8) <= 15,
    ensures
        spec_header(b, pos) == Err::<BoxHeader, Error>(Error::InvalidData(Reason::LargeSizeTooSmall)),
{
}

impl BoxHeader {
    pub fn new(typ: BoxType, size: u64, offset: u64) -> (r: BoxHeader)
        ensures
            r == (BoxHeader { typ, size, offset }),
    {
        BoxHeader { typ, size, offset }
    }

    pub fn box_start(&self) -> (r: u64)
        ensures
            r == self.offset,
    {
        self.offset
    }

    /// Where the stream continues after this box, if that fits in 64 bits.
    pub fn skip_box(&self) -> (r: Option<u64>)
        ensures
            r == (if self.offset + self.size <= u64::MAX {
                Some((self.offset + self.size) as u64)
            } else {
                None::<u64>
            }),
    {
        self.offset.checked_add(self.size)
    }
}

/// Reads the header at `pos` and the number of bytes it takes.
pub fn parse_header(b: &[u8], pos: usize) -> (r: Result<(BoxHeader, usize), Error>)
    ensures
        match spec_parse_header(b@, pos as int) {
            Ok(p) => r == Ok::<(BoxHeader, usize), Error>((p.0, p.1 as usize)),
            Err(e) => r == Err::<(BoxHeader, usize), Error>(e),
        },
        r is Ok ==> r->Ok_0.1 == 8 || r->Ok_0.1 == 16,
{
    if pos > b.len() || b.len() - pos < 8 {
        return Err(Error::UnexpectedEof);
    }
    let size = read_be32(b, pos, 4)?;
    let tag = read_be32(b, pos + 4, 4)?;
    proof {
        reveal_with_fuel(byte_base, 9);
    }
    let typ = BoxType::from_tag(tag);
    if size == 1 {
        let large = read_be(b, pos + 8, 8)?;
        if 1 <= large && large <= 15 {
            Err(Error::InvalidData(Reason::LargeSizeTooSmall))
        } else {
            Ok((BoxHeader { typ, size: large, offset: pos as u64 }, 16))
        }
    } else {
        Ok((BoxHeader { typ, size: size as u64, offset: pos as u64 }, 8))
    }
}

/// Reads the box header that starts at `offset`.
pub fn read_box_header(b: &[u8], offset: u64) -> (r: Result<BoxHeader, Error>)
    ensures
        r == spec_header(b@, offset as int),
{
    if offset > b.len() as u64 {
        return Err(Error::UnexpectedEof);
    }
    match parse_header(b, offset as usize) {
        Ok(p) => Ok(p.0),
        Err(e) => Err(e),
    }
}

/// Reads the version byte and the 24-bit flags that open a full box.
pub fn read_box_header_ext(b: &[u8], pos: usize) -> (r: Result<(u8, u32), Error>)
    ensures
        r == spec_header_ext(b@, pos as int),
        r is Ok ==> r->Ok_0.0 == be_at(b@, pos as int, 1) && r->Ok_0.1 == be_at(b@, pos + 1, 3)
            && fits(b@, pos as int, 4),
        r is Err ==> r == Err::<(u8, u32), Error>(Error::UnexpectedEof),
{
    if pos > b.len() || b.len() - pos < 4 {
        return Err(Error::UnexpectedEof);
    }
    let version = read_be32(b, pos, 1)?;
    let flags = read_be32(b, pos + 1, 3)?;
    proof {
        reveal_with_fuel(byte_base, 2);
    }
    Ok((version as u8, flags))
}

/// The `n` bytes of `v` written big-endian (its low `8 * n` bits).
pub open spec fn be_bytes(v: nat, n: nat) -> Seq<u8>
    decreases n,
{
    if n == 0 {
        seq![]
    } else {
        be_bytes(v / 256, (n - 1) as nat).push((v % 256) as u8)
    }
}

pub proof fn lemma_be_bytes(v: nat, n: nat)
    requires
        v < byte_base(n),
    ensures
        be_bytes(v, n).len() == n,
        be_uint(be_bytes(v, n)) == v,
    decreases n,
{
    if n > 0 {
        assert(v / 256 < byte_base((n - 1) as nat)) by (nonlinear_arith)
            requires
                v < 256 * byte_base((n - 1) as nat),
        ;
        lemma_be_bytes(v / 256, (n - 1) as nat);
        let s = be_bytes(v, n);
        assert(s.drop_last() =~= be_bytes(v / 256, (n - 1) as nat));
    }
}

/// The bytes of header `h`: a 32-bit size and the tag, or, when the size
/// does not fit in 32 bits, the escape `1`, the tag and a 64-bit size.
pub open spec fn spec_header_bytes(h: BoxHeader) -> Seq<u8> {
    if h.size > u32::MAX {
        be_bytes(1, 4) + be_bytes(tag_of(h.typ) as nat, 4) + be_bytes(h.size as nat, 8)
    } else {
        be_bytes(h.size as nat, 4) + be_bytes(tag_of(h.typ) as nat, 4)
    }
}

/// Appends the `n` low bytes of `v` to `out`, most significant first.
fn push_be(out: &mut Vec<u8>, v: u64, n: usize)
    requires
        n <= 8,
    ensures
        final(out)@ == old(out)@ + be_bytes(v as nat, n as nat),
    decreases n,
{
    if n > 0 {
        push_be(out, v / 256, n - 1);
        out.push((v % 256) as u8);
        proof {
            assert(final(out)@ =~= old(out)@ + be_bytes(v as nat, n as nat));
        }
    } else {
        proof {
            assert(final(out)@ =~= old(out)@ + be_bytes(v as nat, n as nat));
        }
    }
}

/// Appends the bytes of `header` to `out` and returns how many there are:
/// the 16-byte form only when the size does not fit in 32 bits.
pub fn write_box_header(header: &BoxHeader, out: &mut Vec<u8>) -> (r: u64)
    ensures
        final(out)@ == old(out)@ + spec_header_bytes(*header),
        r == spec_header_bytes(*header).len(),
        r == (if header.size > u32::MAX { 16u64 } else { 8u64 }),
{
    proof {
        lemma_byte_base_values();
        lemma_be_bytes(1, 4);
        lemma_be_bytes(tag_of(header.typ) as nat, 4);
    }
    if header.size > u32::MAX as u64 {
        push_be(out, 1, 4);
        push_be(out, header.typ.tag() as u64, 4);
        push_be(out, header.size, 8);
        proof {
            lemma_be_bytes(header.size as nat, 8);
            assert(final(out)@ =~= old(out)@ + spec_header_bytes(*header));
        }
        HEADER_SIZE_LARGE
    } else {
        push_be(out, header.size, 4);
        push_be(out, header.typ.tag() as u64, 4);
        proof {
            lemma_be_bytes(header.size as nat, 4);
            assert(final(out)@ =~= old(out)@ + spec_header_bytes(*header));
        }
        HEADER_SIZE
    }
}

/// Appends a version byte and 24-bit flags to `out`; returns 4.
pub fn write_box_header_ext(out: &mut Vec<u8>, version: u8, flags: u32) -> (r: u64)
    requires
        flags < 0x100_0000,
    ensures
        final(out)@ == old(out)@ + seq![version] + be_bytes(flags as nat, 3),
        r == 4,
{
    out.push(version);
    let ghost mid = out@;
    push_be(out, flags as u64, 3);
    proof {
        assert(mid == old(out)@ + seq![version]);
    }
    4
}

/// A header read back from the bytes written for it is the same header,
/// placed where the bytes start, whatever follows them. A 32-bit size of 1
/// would read as the escape, and an unknown tag that names a known kind reads
/// as that kind, so both are left out.
pub proof fn lemma_header_round_trip(h: BoxHeader, rest: Seq<u8>)
    requires
        h.size != 1,
        box_type_of(tag_of(h.typ)) == h.typ,
        h.offset == 0,
    ensures
        spec_parse_header(spec_header_bytes(h) + rest, 0) == Ok::<(BoxHeader, int), Error>(
            (h, spec_header_bytes(h).len() as int),
        ),
{
    let b = spec_header_bytes(h) + rest;
    lemma_byte_base_values();
    lemma_be_bytes(1, 4);
    lemma_be_bytes(tag_of(h.typ) as nat, 4);
    if h.size > u32::MAX {
        lemma_be_bytes(h.size as nat, 8);
        assert(b.subrange(0, 4) =~= be_bytes(1, 4));
        assert(b.subrange(4, 8) =~= be_bytes(tag_of(h.typ) as nat, 4));
        assert(b.subrange(8, 16) =~= be_bytes(h.size as nat, 8));
    } else {
        lemma_be_bytes(h.size as nat, 4);
        assert(b.subrange(0, 4) =~= be_bytes(h.size as nat, 4));
        assert(b.subrange(4, 8) =~= be_bytes(tag_of(h.typ) as nat, 4));
    }
}

/// Version and flags read back from the bytes written for them are the same.
pub proof fn lemma_header_ext_round_trip(version: u8, flags: u32, rest: Seq<u8>)
    requires
        flags < 0x100_0000,
    ensures
        spec_header_ext(seq![version] + be_bytes(flags as nat, 3) + rest, 0) == Ok::<(u8, u32), Error>(
            (version, flags),
        ),
{
    let b = seq![version] + be_bytes(flags as nat, 3) + rest;
    lemma_byte_base_values();
    lemma_be_bytes(flags as nat, 3);
    lemma_be_bytes(version as nat, 1);
    assert(be_bytes(version as nat, 1) =~= seq![version]) by {
        reveal_with_fuel(be_bytes, 2);
    }
    assert(b.subrange(0, 1) =~= seq![version]);
    assert(b.subrange(1, 4) =~= be_bytes(flags as nat, 3));
}

} // verus!
