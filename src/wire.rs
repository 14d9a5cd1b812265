//! Big-endian reads from a byte buffer, and the library's error type.
use vstd::prelude::*;
use vstd::utf8::{decode_utf8, decode_utf8_encode_utf8, encode_utf8, valid_utf8};

verus! {

/// Why a stream was rejected as malformed.
#[derive(Clone, Copy, Debug, PartialEq, Eq, Structural)]
pub enum Reason {
    /// A 64-bit extended size in `1..=15`.
    LargeSizeTooSmall,
    /// A box declares more bytes than remain in its enclosing region.
    BoxLargerThanRegion,
    /// A decoded payload accounts for more bytes than its box declares.
    PayloadLargerThanBox,
    /// An `ftyp` box shorter than 16 bytes or not a multiple of 4.
    FtypSize,
    /// An `hdlr` box too short to hold its fixed fields.
    HdlrSizeTooSmall,
    /// A `url ` box too short to hold its location.
    UrlSizeTooSmall,
    /// A version field outside `0..=1`.
    BadVersion,
    /// Deriving the first sample numbers of an `stsc` box overflowed.
    StscOverflow,
}

/// Errors of decoding and scanning.
#[derive(Clone, Copy, Debug, PartialEq, Eq, Structural)]
pub enum Error {
    /// The stream ended before a read could be completed.
    UnexpectedEof,
    /// The stream is malformed.
    InvalidData(Reason),
    /// A box is not of the kind that was asked for.
    BoxNotFound,
}

/// The value of `s` read as an unsigned big-endian integer.
pub open spec fn be_uint(s: Seq<u8>) -> nat
    decreases s.len(),
{
    if s.len() == 0 {
        0
    } else {
        be_uint(s.drop_last()) * 256 + s.last() as nat
    }
}

/// `256` to the power `n`.
pub open spec fn byte_base(n: nat) -> nat
    decreases n,
{
    if n == 0 {
        1
    } else {
        256 * byte_base((n - 1) as nat)
    }
}

/// The `n` bytes of `b` at `pos`, read big-endian.
pub open spec fn be_at(b: Seq<u8>, pos: int, n: int) -> nat {
    be_uint(b.subrange(pos, pos + n))
}

/// Whether `n` bytes can be read from `b` at `pos`.
pub open spec fn fits(b: Seq<u8>, pos: int, n: int) -> bool {
    0 <= pos && 0 <= n && pos + n <= b.len()
}

/// What reading `n` bytes at `pos` gives.
pub open spec fn spec_read(b: Seq<u8>, pos: int, n: int) -> Result<u64, Error> {
    if fits(b, pos, n) {
        Ok(be_at(b, pos, n) as u64)
    } else {
        Err(Error::UnexpectedEof)
    }
}

pub proof fn lemma_be_uint_bound(s: Seq<u8>)
    ensures
        be_uint(s) < byte_base(s.len()),
    decreases s.len(),
{
    if s.len() > 0 {
        lemma_be_uint_bound(s.drop_last());
        let a = be_uint(s.drop_last());
        let m = byte_base((s.len() - 1) as nat);
        let l = s.last() as nat;
        assert(a * 256 + l < 256 * m) by (nonlinear_arith)
            requires
                a < m,
                l < 256,
        ;
    }
}

pub proof fn lemma_byte_base_values()
    ensures
        byte_base(1) == 0x100,
        byte_base(2) == 0x1_0000,
        byte_base(3) == 0x100_0000,
        byte_base(4) == 0x1_0000_0000,
        byte_base(8) == 0x1_0000_0000_0000_0000,
{
    reveal_with_fuel(byte_base, 9);
}

/// Relies on byteorder's `BigEndian::read_uint`: the first `n` bytes of `buf`
/// as an unsigned integer, most significant byte first.
#[verifier::external_body]
fn read_uint_be(buf: &[u8], n: usize) -> (r: u64)
    requires
        1 <= n <= 8,
        n <= buf@.len(),
    ensures
        r == be_uint(buf@.subrange(0, n as int)),
{
    <byteorder::BigEndian as byteorder::ByteOrder>::read_uint(buf, n)
}

/// Reads `n` bytes at `pos` as a big-endian unsigned integer.
pub fn read_be(b: &[u8], pos: usize, n: usize) -> (r: Result<u64, Error>)
    requires
        1 <= n <= 8,
    ensures
        r == spec_read(b@, pos as int, n as int),
        fits(b@, pos as int, n as int) ==> be_at(b@, pos as int, n as int) < byte_base(n as nat)
            && r == Ok::<u64, Error>(be_at(b@, pos as int, n as int) as u64),
{
    if pos > b.len() || n > b.len() - pos {
        return Err(Error::UnexpectedEof);
    }
    let part = &b[pos..pos + n];
    let v = read_uint_be(part, n);
    proof {
        assert(part@.subrange(0, n as int) =~= b@.subrange(pos as int, pos + n));
        lemma_be_uint_bound(part@.subrange(0, n as int));
    }
    Ok(v)
}

/// Reads a big-endian `u8`, `u16`, 24-bit or `u32` value, as `u32`.
pub fn read_be32(b: &[u8], pos: usize, n: usize) -> (r: Result<u32, Error>)
    requires
        1 <= n <= 4,
    ensures
        fits(b@, pos as int, n as int) ==> be_at(b@, pos as int, n as int) < byte_base(n as nat)
            && byte_base(n as nat) <= 0x1_0000_0000
            && r == Ok::<u32, Error>(be_at(b@, pos as int, n as int) as u32),
        !fits(b@, pos as int, n as int) ==> r == Err::<u32, Error>(Error::UnexpectedEof),
{
    let v = match read_be(b, pos, n) {
        Ok(v) => v,
        Err(e) => return Err(e),
    };
    proof {
        reveal_with_fuel(byte_base, 5);
    }
    Ok(v as u32)
}

/// The signed value of a 32-bit two's complement pattern.
pub open spec fn i32_of(v: nat) -> int {
    if v < 0x8000_0000 {
        v as int
    } else {
        v - 0x1_0000_0000
    }
}

/// The signed value of a 16-bit two's complement pattern.
pub open spec fn i16_of(v: nat) -> int {
    if v < 0x8000 {
        v as int
    } else {
        v - 0x1_0000
    }
}

/// The `n` bytes at `p`, which must be in bounds, read big-endian.
fn uint_at(b: &[u8], p: usize, n: usize) -> (r: u64)
    requires
        1 <= n <= 8,
        fits(b@, p as int, n as int),
    ensures
        r == be_at(b@, p as int, n as int),
        r < byte_base(n as nat),
{
    let _len = b.len();
    let part = &b[p..p + n];
    proof {
        assert(part@.subrange(0, n as int) =~= b@.subrange(p as int, p + n));
        lemma_be_uint_bound(part@.subrange(0, n as int));
    }
    read_uint_be(part, n)
}

/// The byte at `p`, which must be in bounds.
pub fn u8_at(b: &[u8], p: usize) -> (r: u8)
    requires
        fits(b@, p as int, 1),
    ensures
        r == be_at(b@, p as int, 1),
{
    proof {
        lemma_byte_base_values();
    }
    uint_at(b, p, 1) as u8
}

/// The big-endian `u16` at `p`, which must be in bounds.
pub fn u16_at(b: &[u8], p: usize) -> (r: u16)
    requires
        fits(b@, p as int, 2),
    ensures
        r == be_at(b@, p as int, 2),
{
    proof {
        lemma_byte_base_values();
    }
    uint_at(b, p, 2) as u16
}

/// The big-endian `u32` at `p`, which must be in bounds.
pub fn u32_at(b: &[u8], p: usize) -> (r: u32)
    requires
        fits(b@, p as int, 4),
    ensures
        r == be_at(b@, p as int, 4),
{
    proof {
        lemma_byte_base_values();
    }
    uint_at(b, p, 4) as u32
}

/// The big-endian `u64` at `p`, which must be in bounds.
pub fn u64_at(b: &[u8], p: usize) -> (r: u64)
    requires
        fits(b@, p as int, 8),
    ensures
        r == be_at(b@, p as int, 8),
{
    uint_at(b, p, 8)
}

/// The big-endian `i32` at `p`, which must be in bounds.
pub fn i32_at(b: &[u8], p: usize) -> (r: i32)
    requires
        fits(b@, p as int, 4),
    ensures
        r == i32_of(be_at(b@, p as int, 4)),
{
    let v = u32_at(b, p);
    if v < 0x8000_0000 {
        v as i32
    } else {
        (v - 0x8000_0000) as i32 + i32::MIN
    }
}

/// The big-endian `i16` at `p`, which must be in bounds.
pub fn i16_at(b: &[u8], p: usize) -> (r: i16)
    requires
        fits(b@, p as int, 2),
    ensures
        r == i16_of(be_at(b@, p as int, 2)),
{
    let v = u16_at(b, p);
    if v < 0x8000 {
        v as i16
    } else {
        (v - 0x8000) as i16 + i16::MIN
    }
}

/// Relies on `String::from_utf8`: it accepts exactly the valid UTF-8 byte
/// sequences, and the string then holds the characters those bytes encode.
#[verifier::external_body]
pub fn utf8_string(v: Vec<u8>) -> (r: Option<String>)
    ensures
        r is Some <==> valid_utf8(v@),
        r is Some ==> r->Some_0@ == decode_utf8(v@),
{
    String::from_utf8(v).ok()
}

/// Copies the `n` bytes at `p`, which must be in bounds.
pub fn bytes_at(b: &[u8], p: usize, n: usize) -> (r: Vec<u8>)
    requires
        fits(b@, p as int, n as int),
    ensures
        r@ == b@.subrange(p as int, p + n),
{
    let mut r: Vec<u8> = Vec::new();
    let mut i: usize = 0;
    let _len = b.len();
    while i < n
        invariant
            fits(b@, p as int, n as int),
            b@.len() <= usize::MAX,
            i <= n,
            r@ == b@.subrange(p as int, p + i),
        decreases n - i,
    {
        r.push(b[p + i]);
        i = i + 1;
        assert(r@ =~= b@.subrange(p as int, p + i));
    }
    r
}

/// The bytes of a string decoded from `v`, when `v` is valid UTF-8.
pub proof fn lemma_utf8_bytes(v: Seq<u8>)
    requires
        valid_utf8(v),
    ensures
        encode_utf8(decode_utf8(v)) == v,
{
    decode_utf8_encode_utf8(v);
}

} // verus!
