//! `stsd`, `avc1`, `avcC` and `pasp`: sample descriptions and the AVC
//! configuration they carry.
use crate::boxes::{Ibox, ReadBox};
use crate::wire::{be_at, bytes_at, fits, u16_at, u32_at, u8_at, Error};
use crate::header::{read_box_header_ext, BoxHeader};
use crate::registry::BoxType;
use crate::types::FixedPointU16;
use vstd::prelude::*;

verus! {

#[derive(Clone, Copy, Debug, PartialEq, Eq)]
pub struct StsdBox {
    pub version: u8,
    pub flags: u32,
    pub entry_count: u32,
}

impl Ibox for StsdBox {
    open spec fn kind() -> BoxType {
        BoxType::Stsd
    }

    open spec fn inv(&self) -> bool {
        true
    }

    open spec fn spec_header_size(&self) -> nat {
        12
    }

    open spec fn spec_data_size(&self) -> nat {
        4
    }

    fn typ(&self) -> (r: BoxType) {
        BoxType::Stsd
    }

    fn header_size(&self) -> (r: u64) {
        12
    }

    fn data_size(&self) -> (r: u64) {
        4
    }
}

impl ReadBox for StsdBox {
    open spec fn outcome(b: Seq<u8>, pos: int, h: BoxHeader) -> Result<nat, Error> {
        if fits(b, pos, 8) {
            Ok(16)
        } else {
            Err(Error::UnexpectedEof)
        }
    }

    open spec fn decodes(b: Seq<u8>, pos: int, h: BoxHeader, x: Self) -> bool {
        &&& x.version == be_at(b, pos, 1)
        &&& x.flags == be_at(b, pos + 1, 3)
        &&& x.entry_count == be_at(b, pos + 4, 4)
    }

    fn read(b: &[u8], pos: usize, h: &BoxHeader) -> (r: Result<Self, Error>) {
        let (version, flags) = read_box_header_ext(b, pos)?;
        if b.len() - pos < 8 {
            return Err(Error::UnexpectedEof);
        }
        Ok(StsdBox { version, flags, entry_count: u32_at(b, pos + 4) })
    }
}

#[derive(Clone, Copy, Debug, PartialEq, Eq)]
pub struct Avc1Box {
    pub data_reference_index: u16,
    pub width: u16,
    pub height: u16,
    pub horizresolution: FixedPointU16,
    pub vertresolution: FixedPointU16,
    pub frame_count: u16,
    pub depth: u16,
}

impl Ibox for Avc1Box {
    open spec fn kind() -> BoxType {
        BoxType::Avc1
    }

    open spec fn inv(&self) -> bool {
        true
    }

    open spec fn spec_header_size(&self) -> nat {
        8
    }

    open spec fn spec_data_size(&self) -> nat {
        78
    }

    fn typ(&self) -> (r: BoxType) {
        BoxType::Avc1
    }

    fn header_size(&self) -> (r: u64) {
        8
    }

    fn data_size(&self) -> (r: u64) {
        8 + 70
    }
}

impl ReadBox for Avc1Box {
    open spec fn outcome(b: Seq<u8>, pos: int, h: BoxHeader) -> Result<nat, Error> {
        if fits(b, pos, 78) {
            Ok(86)
        } else {
            Err(Error::UnexpectedEof)
        }
    }

    open spec fn decodes(b: Seq<u8>, pos: int, h: BoxHeader, x: Self) -> bool {
        &&& x.data_reference_index == be_at(b, pos + 6, 2)
        &&& x.width == be_at(b, pos + 24, 2)
        &&& x.height == be_at(b, pos + 26, 2)
        &&& x.horizresolution.raw == be_at(b, pos + 28, 4)
        &&& x.vertresolution.raw == be_at(b, pos + 32, 4)
        &&& x.frame_count == be_at(b, pos + 40, 2)
        &&& x.depth == be_at(b, pos + 74, 2)
    }

    fn read(b: &[u8], pos: usize, h: &BoxHeader) -> (r: Result<Self, Error>) {
        if pos > b.len() || b.len() - pos < 78 {
            return Err(Error::UnexpectedEof);
        }
        Ok(Avc1Box {
            data_reference_index: u16_at(b, pos + 6),
            width: u16_at(b, pos + 24),
            height: u16_at(b, pos + 26),
            horizresolution: FixedPointU16::new_raw(u32_at(b, pos + 28)),
            vertresolution: FixedPointU16::new_raw(u32_at(b, pos + 32)),
            frame_count: u16_at(b, pos + 40),
            depth: u16_at(b, pos + 74),
        })
    }
}

/// A parameter set of an AVC configuration.
#[derive(Clone, Debug, PartialEq, Eq)]
pub struct NalUnit {
    pub bytes: Vec<u8>,
}

impl NalUnit {
    /// Bytes the unit takes in the stream: a 16-bit length and its bytes.
    pub fn size(&self) -> (r: u64)
        requires
            self.bytes@.len() + 2 <= u64::MAX,
        ensures
            r == 2 + self.bytes@.len(),
    {
        2 + self.bytes.len() as u64
    }
}

/// Bytes that units with the given contents take in the stream.
pub open spec fn units_len(units: Seq<Seq<u8>>) -> nat
    decreases units.len(),
{
    if units.len() == 0 {
        0
    } else {
        units_len(units.drop_last()) + 2 + units.last().len()
    }
}

/// The contents of `units`.
pub open spec fn unit_bytes(units: Seq<NalUnit>) -> Seq<Seq<u8>> {
    units.map_values(|u: NalUnit| u.bytes@)
}

/// The `n` units stored one after another from `p`, each a 16-bit length
/// and that many bytes, and where they end; `None` when the bytes run out.
pub open spec fn nal_units(b: Seq<u8>, p: int, n: nat) -> Option<(Seq<Seq<u8>>, int)>
    decreases n,
{
    if n == 0 {
        Some((seq![], p))
    } else if !fits(b, p, 2) || !fits(b, p + 2, be_at(b, p, 2) as int) {
        None
    } else {
        let len = be_at(b, p, 2) as int;
        match nal_units(b, p + 2 + len, (n - 1) as nat) {
            None => None,
            Some((rest, e)) => Some((seq![b.subrange(p + 2, p + 2 + len)] + rest, e)),
        }
    }
}

proof fn lemma_units_len_prepend(u: Seq<u8>, rest: Seq<Seq<u8>>)
    ensures
        units_len(seq![u] + rest) == 2 + u.len() + units_len(rest),
    decreases rest.len(),
{
    let all = seq![u] + rest;
    if rest.len() == 0 {
        assert(all.drop_last() =~= Seq::<Seq<u8>>::empty());
        assert(all.last() == u);
        assert(units_len(all) == units_len(all.drop_last()) + 2 + all.last().len());
    } else {
        lemma_units_len_prepend(u, rest.drop_last());
        assert(all.drop_last() =~= seq![u] + rest.drop_last());
        assert(all.last() == rest.last());
        assert(units_len(all) == units_len(all.drop_last()) + 2 + all.last().len());
        assert(units_len(rest) == units_len(rest.drop_last()) + 2 + rest.last().len());
    }
}

proof fn lemma_nal_units_end(b: Seq<u8>, p: int, n: nat)
    requires
        nal_units(b, p, n) is Some,
    ensures
        nal_units(b, p, n)->Some_0.1 == p + units_len(nal_units(b, p, n)->Some_0.0),
        nal_units(b, p, n)->Some_0.0.len() == n,
        p <= nal_units(b, p, n)->Some_0.1 <= b.len() || n == 0,
    decreases n,
{
    if n > 0 {
        let len = be_at(b, p, 2) as int;
        lemma_nal_units_end(b, p + 2 + len, (n - 1) as nat);
        let (rest, e) = nal_units(b, p + 2 + len, (n - 1) as nat)->Some_0;
        lemma_units_len_prepend(b.subrange(p + 2, p + 2 + len), rest);
    }
}

/// Reads the `n` units stored one after another from `p`.
fn read_nal_units(b: &[u8], p: usize, n: u8) -> (r: Result<(Vec<NalUnit>, usize), Error>)
    ensures
        match nal_units(b@, p as int, n as nat) {
            None => r == Err::<(Vec<NalUnit>, usize), Error>(Error::UnexpectedEof),
            Some((units, e)) => r is Ok && unit_bytes(r->Ok_0.0@) == units && r->Ok_0.1 == e,
        },
{
    let _len = b.len();
    let mut units: Vec<NalUnit> = Vec::new();
    let mut q = p;
    let mut i: u8 = 0;
    proof {
        if nal_units(b@, p as int, n as nat) is Some {
            lemma_nal_units_end(b@, p as int, n as nat);
            let all = nal_units(b@, p as int, n as nat)->Some_0.0;
            assert(all.subrange(0, n as int) =~= all);
            assert(unit_bytes(units@) =~= all.subrange(0, 0));
        }
    }
    while i < n
        invariant
            b@.len() <= usize::MAX,
            i <= n,
            nal_units(b@, p as int, n as nat) is Some ==> nal_units(b@, p as int, n as nat)->Some_0.0.len() == n,
            match nal_units(b@, p as int, n as nat) {
                None => nal_units(b@, q as int, (n - i) as nat) is None,
                Some((all, e)) => nal_units(b@, q as int, (n - i) as nat) == Some(
                    (all.subrange(i as int, n as int), e),
                ) && unit_bytes(units@) == all.subrange(0, i as int),
            },
        decreases n - i,
    {
        if q > b.len() || b.len() - q < 2 {
            return Err(Error::UnexpectedEof);
        }
        let len = u16_at(b, q) as usize;
        if b.len() - q - 2 < len {
            return Err(Error::UnexpectedEof);
        }
        let bytes = bytes_at(b, q + 2, len);
        proof {
            match nal_units(b@, p as int, n as nat) {
                None => {},
                Some((all, e)) => {
                    let rest = nal_units(b@, q + 2 + len, (n - i - 1) as nat)->Some_0.0;
                    assert(all.subrange(i as int, n as int) == seq![bytes@] + rest);
                    assert(all.subrange(i as int, n as int)[0] == bytes@);
                    assert(all.subrange(i + 1, n as int) =~= all.subrange(i as int, n as int).drop_first());
                    assert(all.subrange(i as int, n as int).drop_first() =~= rest);
                    assert(all[i as int] == bytes@);
                    assert(unit_bytes(units@.push(NalUnit { bytes })) =~= all.subrange(0, i + 1));
                },
            }
        }
        units.push(NalUnit { bytes });
        q = q + 2 + len;
        i = i + 1;
    }
    proof {
        match nal_units(b@, p as int, n as nat) {
            None => {},
            Some((all, e)) => {
                assert(all.subrange(0, n as int) =~= all);
            },
        }
    }
    Ok((units, q))
}

#[derive(Clone, Debug, PartialEq, Eq)]
pub struct AvcCBox {
    pub configuration_version: u8,
    pub avc_profile_indication: u8,
    pub profile_compatibility: u8,
    pub avc_level_indication: u8,
    pub length_size_minus_one: u8,
    pub sequence_parameter_sets: Vec<NalUnit>,
    pub picture_parameter_sets: Vec<NalUnit>,
}

/// The sequence parameter sets of an `avcC` box whose data starts at `pos`,
/// and where they end.
pub open spec fn avcc_sps(b: Seq<u8>, pos: int) -> Option<(Seq<Seq<u8>>, int)> {
    nal_units(b, pos + 6, (be_at(b, pos + 5, 1) % 32) as nat)
}

/// The picture parameter sets of an `avcC` box whose data starts at `pos`,
/// which follow its sequence parameter sets and their count, and where they end.
pub open spec fn avcc_pps(b: Seq<u8>, pos: int) -> Option<(Seq<Seq<u8>>, int)> {
    let e = avcc_sps(b, pos)->Some_0.1;
    nal_units(b, e + 1, be_at(b, e, 1))
}

impl Ibox for AvcCBox {
    open spec fn kind() -> BoxType {
        BoxType::AvcC
    }

    open spec fn inv(&self) -> bool {
        15 + units_len(unit_bytes(self.sequence_parameter_sets@)) + units_len(
            unit_bytes(self.picture_parameter_sets@),
        ) <= u64::MAX
    }

    open spec fn spec_header_size(&self) -> nat {
        8
    }

    open spec fn spec_data_size(&self) -> nat {
        7 + units_len(unit_bytes(self.sequence_parameter_sets@)) + units_len(
            unit_bytes(self.picture_parameter_sets@),
        )
    }

    fn typ(&self) -> (r: BoxType) {
        BoxType::AvcC
    }

    fn header_size(&self) -> (r: u64) {
        8
    }

    fn data_size(&self) -> (r: u64) {
        let a = sum_sizes(&self.sequence_parameter_sets, 7);
        sum_sizes(&self.picture_parameter_sets, a)
    }
}

proof fn lemma_units_len_mono(s: Seq<Seq<u8>>, i: int)
    requires
        0 <= i <= s.len(),
    ensures
        units_len(s.subrange(0, i)) <= units_len(s),
    decreases s.len() - i,
{
    if i < s.len() {
        lemma_units_len_mono(s, i + 1);
        assert(s.subrange(0, i + 1).drop_last() =~= s.subrange(0, i));
    } else {
        assert(s.subrange(0, i) =~= s);
    }
}

/// `start` plus the stream sizes of `units`.
fn sum_sizes(units: &Vec<NalUnit>, start: u64) -> (r: u64)
    requires
        start + units_len(unit_bytes(units@)) <= u64::MAX,
    ensures
        r == start + units_len(unit_bytes(units@)),
{
    let mut acc = start;
    let mut i: usize = 0;
    while i < units.len()
        invariant
            i <= units@.len(),
            start + units_len(unit_bytes(units@)) <= u64::MAX,
            acc == start + units_len(unit_bytes(units@).subrange(0, i as int)),
        decreases units@.len() - i,
    {
        proof {
            let s = unit_bytes(units@);
            assert(s.subrange(0, i + 1).drop_last() =~= s.subrange(0, i as int));
            assert(s.subrange(0, i + 1).last() == units@[i as int].bytes@);
            lemma_units_len_mono(s, i + 1);
        }
        acc = acc + units[i].size();
        i = i + 1;
    }
    proof {
        assert(unit_bytes(units@).subrange(0, i as int) =~= unit_bytes(units@));
    }
    acc
}

impl ReadBox for AvcCBox {
    open spec fn outcome(b: Seq<u8>, pos: int, h: BoxHeader) -> Result<nat, Error> {
        if !fits(b, pos, 6) || avcc_sps(b, pos) is None || !fits(b, avcc_sps(b, pos)->Some_0.1, 1)
            || avcc_pps(b, pos) is None {
            Err(Error::UnexpectedEof)
        } else {
            Ok((8 + avcc_pps(b, pos)->Some_0.1 - pos) as nat)
        }
    }

    open spec fn decodes(b: Seq<u8>, pos: int, h: BoxHeader, x: Self) -> bool {
        &&& x.configuration_version == be_at(b, pos, 1)
        &&& x.avc_profile_indication == be_at(b, pos + 1, 1)
        &&& x.profile_compatibility == be_at(b, pos + 2, 1)
        &&& x.avc_level_indication == be_at(b, pos + 3, 1)
        &&& x.length_size_minus_one == be_at(b, pos + 4, 1) % 4
        &&& unit_bytes(x.sequence_parameter_sets@) == avcc_sps(b, pos)->Some_0.0
        &&& unit_bytes(x.picture_parameter_sets@) == avcc_pps(b, pos)->Some_0.0
    }

    fn read(b: &[u8], pos: usize, h: &BoxHeader) -> (r: Result<Self, Error>) {
        if pos > b.len() || b.len() - pos < 6 {
            return Err(Error::UnexpectedEof);
        }
        let configuration_version = u8_at(b, pos);
        let avc_profile_indication = u8_at(b, pos + 1);
        let profile_compatibility = u8_at(b, pos + 2);
        let avc_level_indication = u8_at(b, pos + 3);
        let length_size_minus_one = u8_at(b, pos + 4) % 4;
        let num_of_spss = u8_at(b, pos + 5) % 32;
        let (sequence_parameter_sets, e) = read_nal_units(b, pos + 6, num_of_spss)?;
        proof {
            lemma_nal_units_end(b@, pos + 6, num_of_spss as nat);
        }
        if e >= b.len() {
            return Err(Error::UnexpectedEof);
        }
        let num_of_ppss = u8_at(b, e);
        let (picture_parameter_sets, e2) = read_nal_units(b, e + 1, num_of_ppss)?;
        proof {
            lemma_nal_units_end(b@, e + 1, num_of_ppss as nat);
        }
        Ok(AvcCBox {
            configuration_version,
            avc_profile_indication,
            profile_compatibility,
            avc_level_indication,
            length_size_minus_one,
            sequence_parameter_sets,
            picture_parameter_sets,
        })
    }
}

#[derive(Clone, Copy, Debug, PartialEq, Eq)]
pub struct PaspBox {
    pub h_spacing: u32,
    pub v_spacing: u32,
}

impl Ibox for PaspBox {
    open spec fn kind() -> BoxType {
        BoxType::Pasp
    }

    open spec fn inv(&self) -> bool {
        true
    }

    open spec fn spec_header_size(&self) -> nat {
        8
    }

    open spec fn spec_data_size(&self) -> nat {
        8
    }

    fn typ(&self) -> (r: BoxType) {
        BoxType::Pasp
    }

    fn header_size(&self) -> (r: u64) {
        8
    }

    fn data_size(&self) -> (r: u64) {
        8
    }
}

impl ReadBox for PaspBox {
    open spec fn outcome(b: Seq<u8>, pos: int, h: BoxHeader) -> Result<nat, Error> {
        if fits(b, pos, 8) {
            Ok(16)
        } else {
            Err(Error::UnexpectedEof)
        }
    }

    open spec fn decodes(b: Seq<u8>, pos: int, h: BoxHeader, x: Self) -> bool {
        &&& x.h_spacing == be_at(b, pos, 4)
        &&& x.v_spacing == be_at(b, pos + 4, 4)
    }

    fn read(b: &[u8], pos: usize, h: &BoxHeader) -> (r: Result<Self, Error>) {
        if pos > b.len() || b.len() - pos < 8 {
            return Err(Error::UnexpectedEof);
        }
        Ok(PaspBox { h_spacing: u32_at(b, pos), v_spacing: u32_at(b, pos + 4) })
    }
}

} // verus!
