//! The sample tables: `stts`, `ctts`, `stss`, `stsc`, `stsz` and `stco`.
use crate::boxes::{Ibox, ReadBox};
use crate::wire::{be_at, fits, i32_at, i32_of, u32_at, Error, Reason};
use crate::header::{read_box_header_ext, BoxHeader};
use crate::registry::BoxType;
use vstd::prelude::*;

verus! {

/// The entry count of a table whose data starts at `pos`.
pub open spec fn table_count(b: Seq<u8>, pos: int) -> int {
    be_at(b, pos + 4, 4) as int
}

/// What reading a table of `width`-byte entries at `pos` gives, when the
/// table takes `data` bytes of data in all.
pub open spec fn table_outcome(b: Seq<u8>, pos: int, width: int, data: int) -> Result<nat, Error> {
    if !fits(b, pos, 8) || !fits(b, pos, 8 + width * table_count(b, pos)) {
        Err(Error::UnexpectedEof)
    } else {
        Ok((12 + data) as nat)
    }
}

/// Checks that a table of `width`-byte entries fits after its count and
/// returns the count.
fn table_header(b: &[u8], pos: usize, width: usize) -> (r: Result<(u8, u32, u32), Error>)
    requires
        1 <= width <= 12,
    ensures
        match r {
            Ok((version, flags, count)) => {
                &&& fits(b@, pos as int, 8 + width * table_count(b@, pos as int))
                &&& fits(b@, pos as int, 8)
                &&& version == be_at(b@, pos as int, 1)
                &&& flags == be_at(b@, pos + 1, 3)
                &&& count == table_count(b@, pos as int)
            },
            Err(e) => e == Error::UnexpectedEof && (!fits(b@, pos as int, 8) || !fits(
                b@,
                pos as int,
                8 + width * table_count(b@, pos as int),
            )),
        },
{
    let (version, flags) = read_box_header_ext(b, pos)?;
    if b.len() - pos < 8 {
        return Err(Error::UnexpectedEof);
    }
    let count = u32_at(b, pos + 4);
    assert(width as u64 * count as u64 <= 12 * 0xFFFF_FFFF) by (nonlinear_arith)
        requires
            width <= 12,
            count <= 0xFFFF_FFFF,
    ;
    if (((b.len() - pos - 8) as u64) < width as u64 * count as u64) {
        return Err(Error::UnexpectedEof);
    }
    Ok((version, flags, count))
}

#[derive(Clone, Copy, Debug, PartialEq, Eq, Structural)]
pub struct SttsEntry {
    pub sample_count: u32,
    pub sample_delta: u32,
}

/// Whether `e` is the entry stored at `p`.
pub open spec fn stts_entry(b: Seq<u8>, p: int, e: SttsEntry) -> bool {
    e.sample_count == be_at(b, p + 0, 4) && e.sample_delta == be_at(b, p + 4, 4)
}

/// `stts`: decoding time to sample.
#[derive(Clone, Debug, PartialEq, Eq)]
pub struct SttsBox {
    pub version: u8,
    pub flags: u32,
    pub entries: Vec<SttsEntry>,
}

impl Ibox for SttsBox {
    open spec fn kind() -> BoxType {
        BoxType::Stts
    }

    open spec fn inv(&self) -> bool {
        self.entries@.len() <= u32::MAX
    }

    open spec fn spec_header_size(&self) -> nat {
        12
    }

    open spec fn spec_data_size(&self) -> nat {
        4 + 8 * self.entries@.len()
    }

    fn typ(&self) -> (r: BoxType) {
        BoxType::Stts
    }

    fn header_size(&self) -> (r: u64) {
        12
    }

    fn data_size(&self) -> (r: u64) {
        4 + 8 * self.entries.len() as u64
    }
}

impl ReadBox for SttsBox {
    open spec fn outcome(b: Seq<u8>, pos: int, h: BoxHeader) -> Result<nat, Error> {
        table_outcome(b, pos, 8, 4 + 8 * table_count(b, pos))
    }

    open spec fn decodes(b: Seq<u8>, pos: int, h: BoxHeader, x: Self) -> bool {
        &&& x.version == be_at(b, pos, 1)
        &&& x.flags == be_at(b, pos + 1, 3)
        &&& x.entries@.len() == table_count(b, pos)
        &&& forall|i: int| 0 <= i < x.entries@.len() ==> stts_entry(b, pos + 8 + 8 * i, #[trigger] x.entries@[i])
    }

    fn read(b: &[u8], pos: usize, h: &BoxHeader) -> (r: Result<Self, Error>) {
        let (version, flags, count) = table_header(b, pos, 8)?;
        let _len = b.len();
        let mut entries: Vec<SttsEntry> = Vec::new();
        let mut i: u32 = 0;
        while i < count
            invariant
                b@.len() <= usize::MAX,
                fits(b@, pos as int, 8 + 8 * count),
                count == table_count(b@, pos as int),
                i <= count,
                entries@.len() == i,
                forall|j: int| 0 <= j < i ==> stts_entry(b@, pos + 8 + 8 * j, #[trigger] entries@[j]),
            decreases count - i,
        {
            let q = pos + 8 + 8 * i as usize;
            let e = { SttsEntry { sample_count: u32_at(b, q + 0), sample_delta: u32_at(b, q + 4) } };
            entries.push(e);
            i = i + 1;
        }
        Ok(SttsBox { version, flags, entries })
    }
}

#[derive(Clone, Copy, Debug, PartialEq, Eq, Structural)]
pub struct CttsEntry {
    pub sample_count: u32,
    pub sample_offset: i32,
}

/// Whether `e` is the entry stored at `p`.
pub open spec fn ctts_entry(b: Seq<u8>, p: int, e: CttsEntry) -> bool {
    e.sample_count == be_at(b, p + 0, 4) && e.sample_offset == i32_of(be_at(b, p + 4, 4))
}

/// `ctts`: composition time offsets.
#[derive(Clone, Debug, PartialEq, Eq)]
pub struct CttsBox {
    pub version: u8,
    pub flags: u32,
    pub entries: Vec<CttsEntry>,
}

impl Ibox for CttsBox {
    open spec fn kind() -> BoxType {
        BoxType::Ctts
    }

    open spec fn inv(&self) -> bool {
        self.entries@.len() <= u32::MAX
    }

    open spec fn spec_header_size(&self) -> nat {
        12
    }

    open spec fn spec_data_size(&self) -> nat {
        4 + 8 * self.entries@.len()
    }

    fn typ(&self) -> (r: BoxType) {
        BoxType::Ctts
    }

    fn header_size(&self) -> (r: u64) {
        12
    }

    fn data_size(&self) -> (r: u64) {
        4 + 8 * self.entries.len() as u64
    }
}

impl ReadBox for CttsBox {
    open spec fn outcome(b: Seq<u8>, pos: int, h: BoxHeader) -> Result<nat, Error> {
        table_outcome(b, pos, 8, 4 + 8 * table_count(b, pos))
    }

    open spec fn decodes(b: Seq<u8>, pos: int, h: BoxHeader, x: Self) -> bool {
        &&& x.version == be_at(b, pos, 1)
        &&& x.flags == be_at(b, pos + 1, 3)
        &&& x.entries@.len() == table_count(b, pos)
        &&& forall|i: int| 0 <= i < x.entries@.len() ==> ctts_entry(b, pos + 8 + 8 * i, #[trigger] x.entries@[i])
    }

    fn read(b: &[u8], pos: usize, h: &BoxHeader) -> (r: Result<Self, Error>) {
        let (version, flags, count) = table_header(b, pos, 8)?;
        let _len = b.len();
        let mut entries: Vec<CttsEntry> = Vec::new();
        let mut i: u32 = 0;
        while i < count
            invariant
                b@.len() <= usize::MAX,
                fits(b@, pos as int, 8 + 8 * count),
                count == table_count(b@, pos as int),
                i <= count,
                entries@.len() == i,
                forall|j: int| 0 <= j < i ==> ctts_entry(b@, pos + 8 + 8 * j, #[trigger] entries@[j]),
            decreases count - i,
        {
            let q = pos + 8 + 8 * i as usize;
            let e = { CttsEntry { sample_count: u32_at(b, q + 0), sample_offset: i32_at(b, q + 4) } };
            entries.push(e);
            i = i + 1;
        }
        Ok(CttsBox { version, flags, entries })
    }
}

/// `stss`: sync samples.
#[derive(Clone, Debug, PartialEq, Eq)]
pub struct StssBox {
    pub version: u8,
    pub flags: u32,
    pub entries: Vec<u32>,
}

impl Ibox for StssBox {
    open spec fn kind() -> BoxType {
        BoxType::Stss
    }

    open spec fn inv(&self) -> bool {
        self.entries@.len() <= u32::MAX
    }

    open spec fn spec_header_size(&self) -> nat {
        12
    }

    open spec fn spec_data_size(&self) -> nat {
        4 + 4 * self.entries@.len()
    }

    fn typ(&self) -> (r: BoxType) {
        BoxType::Stss
    }

    fn header_size(&self) -> (r: u64) {
        12
    }

    fn data_size(&self) -> (r: u64) {
        4 + 4 * self.entries.len() as u64
    }
}

impl ReadBox for StssBox {
    open spec fn outcome(b: Seq<u8>, pos: int, h: BoxHeader) -> Result<nat, Error> {
        table_outcome(b, pos, 4, 4 + 4 * table_count(b, pos))
    }

    open spec fn decodes(b: Seq<u8>, pos: int, h: BoxHeader, x: Self) -> bool {
        &&& x.version == be_at(b, pos, 1)
        &&& x.flags == be_at(b, pos + 1, 3)
        &&& x.entries@.len() == table_count(b, pos)
        &&& forall|i: int| 0 <= i < x.entries@.len() ==> #[trigger] x.entries@[i] == be_at(b, pos + 8 + 4 * i, 4)
    }

    fn read(b: &[u8], pos: usize, h: &BoxHeader) -> (r: Result<Self, Error>) {
        let (version, flags, count) = table_header(b, pos, 4)?;
        let _len = b.len();
        let mut entries: Vec<u32> = Vec::new();
        let mut i: u32 = 0;
        while i < count
            invariant
                b@.len() <= usize::MAX,
                fits(b@, pos as int, 8 + 4 * count),
                count == table_count(b@, pos as int),
                i <= count,
                entries@.len() == i,
                forall|j: int| 0 <= j < i ==> #[trigger] entries@[j] == be_at(b@, pos + 8 + 4 * j, 4),
            decreases count - i,
        {
            let q = pos + 8 + 4 * i as usize;
            let e = u32_at(b, q + 0);
            entries.push(e);
            i = i + 1;
        }
        Ok(StssBox { version, flags, entries })
    }
}

/// `stco`: chunk offsets.
#[derive(Clone, Debug, PartialEq, Eq)]
pub struct StcoBox {
    pub version: u8,
    pub flags: u32,
    pub chunk_offsets: Vec<i32>,
}

impl Ibox for StcoBox {
    open spec fn kind() -> BoxType {
        BoxType::Stco
    }

    open spec fn inv(&self) -> bool {
        self.chunk_offsets@.len() <= u32::MAX
    }

    open spec fn spec_header_size(&self) -> nat {
        12
    }

    open spec fn spec_data_size(&self) -> nat {
        4 + 4 * self.chunk_offsets@.len()
    }

    fn typ(&self) -> (r: BoxType) {
        BoxType::Stco
    }

    fn header_size(&self) -> (r: u64) {
        12
    }

    fn data_size(&self) -> (r: u64) {
        4 + 4 * self.chunk_offsets.len() as u64
    }
}

impl ReadBox for StcoBox {
    open spec fn outcome(b: Seq<u8>, pos: int, h: BoxHeader) -> Result<nat, Error> {
        table_outcome(b, pos, 4, 4 + 4 * table_count(b, pos))
    }

    open spec fn decodes(b: Seq<u8>, pos: int, h: BoxHeader, x: Self) -> bool {
        &&& x.version == be_at(b, pos, 1)
        &&& x.flags == be_at(b, pos + 1, 3)
        &&& x.chunk_offsets@.len() == table_count(b, pos)
        &&& forall|i: int| 0 <= i < x.chunk_offsets@.len() ==> #[trigger] x.chunk_offsets@[i] == i32_of(be_at(b, pos + 8 + 4 * i, 4))
    }

    fn read(b: &[u8], pos: usize, h: &BoxHeader) -> (r: Result<Self, Error>) {
        let (version, flags, count) = table_header(b, pos, 4)?;
        let _len = b.len();
        let mut chunk_offsets: Vec<i32> = Vec::new();
        let mut i: u32 = 0;
        while i < count
            invariant
                b@.len() <= usize::MAX,
                fits(b@, pos as int, 8 + 4 * count),
                count == table_count(b@, pos as int),
                i <= count,
                chunk_offsets@.len() == i,
                forall|j: int| 0 <= j < i ==> #[trigger] chunk_offsets@[j] == i32_of(be_at(b@, pos + 8 + 4 * j, 4)),
            decreases count - i,
        {
            let q = pos + 8 + 4 * i as usize;
            let e = i32_at(b, q + 0);
            chunk_offsets.push(e);
            i = i + 1;
        }
        Ok(StcoBox { version, flags, chunk_offsets })
    }
}

/// `stsz`: sample sizes, one per sample unless all samples share a size.
#[derive(Clone, Debug, PartialEq, Eq)]
pub struct StszBox {
    pub version: u8,
    pub flags: u32,
    pub sample_size: u32,
    pub sample_count: u32,
    pub sample_sizes: Vec<u32>,
}

/// The number of per-sample sizes an `stsz` box whose data starts at `pos` lists.
pub open spec fn stsz_listed(b: Seq<u8>, pos: int) -> int {
    if be_at(b, pos + 4, 4) == 0 {
        be_at(b, pos + 8, 4) as int
    } else {
        0
    }
}

impl Ibox for StszBox {
    open spec fn kind() -> BoxType {
        BoxType::Stsz
    }

    open spec fn inv(&self) -> bool {
        self.sample_sizes@.len() <= u32::MAX
    }

    open spec fn spec_header_size(&self) -> nat {
        12
    }

    open spec fn spec_data_size(&self) -> nat {
        8 + 4 * self.sample_sizes@.len()
    }

    fn typ(&self) -> (r: BoxType) {
        BoxType::Stsz
    }

    fn header_size(&self) -> (r: u64) {
        12
    }

    fn data_size(&self) -> (r: u64) {
        8 + 4 * self.sample_sizes.len() as u64
    }
}

impl ReadBox for StszBox {
    open spec fn outcome(b: Seq<u8>, pos: int, h: BoxHeader) -> Result<nat, Error> {
        if !fits(b, pos, 12) || !fits(b, pos, 12 + 4 * stsz_listed(b, pos)) {
            Err(Error::UnexpectedEof)
        } else {
            Ok((20 + 4 * stsz_listed(b, pos)) as nat)
        }
    }

    open spec fn decodes(b: Seq<u8>, pos: int, h: BoxHeader, x: Self) -> bool {
        &&& x.version == be_at(b, pos, 1)
        &&& x.flags == be_at(b, pos + 1, 3)
        &&& x.sample_size == be_at(b, pos + 4, 4)
        &&& x.sample_count == be_at(b, pos + 8, 4)
        &&& x.sample_sizes@.len() == stsz_listed(b, pos)
        &&& forall|i: int|
            0 <= i < x.sample_sizes@.len() ==> #[trigger] x.sample_sizes@[i] == be_at(b, pos + 12 + 4 * i, 4)
    }

    fn read(b: &[u8], pos: usize, h: &BoxHeader) -> (r: Result<Self, Error>) {
        let (version, flags) = read_box_header_ext(b, pos)?;
        if b.len() - pos < 12 {
            return Err(Error::UnexpectedEof);
        }
        let sample_size = u32_at(b, pos + 4);
        let sample_count = u32_at(b, pos + 8);
        let listed: u32 = if sample_size == 0 { sample_count } else { 0 };
        if ((b.len() - pos - 12) as u64) < 4 * listed as u64 {
            return Err(Error::UnexpectedEof);
        }
        let _len = b.len();
        let mut sample_sizes: Vec<u32> = Vec::new();
        let mut i: u32 = 0;
        while i < listed
            invariant
                b@.len() <= usize::MAX,
                fits(b@, pos as int, 12 + 4 * listed),
                listed == stsz_listed(b@, pos as int),
                i <= listed,
                sample_sizes@.len() == i,
                forall|j: int| 0 <= j < i ==> #[trigger] sample_sizes@[j] == be_at(b@, pos + 12 + 4 * j, 4),
            decreases listed - i,
        {
            sample_sizes.push(u32_at(b, pos + 12 + 4 * i as usize));
            i = i + 1;
        }
        Ok(StszBox { version, flags, sample_size, sample_count, sample_sizes })
    }
}

#[derive(Clone, Copy, Debug, PartialEq, Eq, Structural)]
pub struct StscEntry {
    pub first_chunk: u32,
    pub sample_per_chunk: u32,
    pub sample_description_index: u32,
    pub first_sample: u32,
}

/// The first sample number of entry `i` of the `stsc` entries stored from
/// `p`: 1 for the first entry, and for each next one the previous number
/// plus the previous entry's samples per chunk times the chunks between the
/// two; `None` when that leaves the range of `u32`.
pub open spec fn stsc_first_sample(b: Seq<u8>, p: int, i: nat) -> Option<nat>
    decreases i,
{
    if i == 0 {
        Some(1)
    } else {
        match stsc_first_sample(b, p, (i - 1) as nat) {
            None => None,
            Some(sid) => {
                let prev = p + 12 * (i - 1);
                let chunks = be_at(b, prev + 12, 4) - be_at(b, prev, 4);
                let next = chunks * be_at(b, prev + 4, 4) + sid;
                if chunks < 0 || chunks * be_at(b, prev + 4, 4) > u32::MAX || next > u32::MAX {
                    None
                } else {
                    Some(next as nat)
                }
            },
        }
    }
}

proof fn lemma_stsc_none_stays(b: Seq<u8>, p: int, i: nat, j: nat)
    requires
        i <= j,
        stsc_first_sample(b, p, i) is None,
    ensures
        stsc_first_sample(b, p, j) is None,
    decreases j - i,
{
    if i < j {
        lemma_stsc_none_stays(b, p, i, (j - 1) as nat);
    }
}

/// `stsc`: sample to chunk, with the first sample of each run derived.
#[derive(Clone, Debug, PartialEq, Eq)]
pub struct StscBox {
    pub version: u8,
    pub flags: u32,
    pub entries: Vec<StscEntry>,
}

impl Ibox for StscBox {
    open spec fn kind() -> BoxType {
        BoxType::Stsc
    }

    open spec fn inv(&self) -> bool {
        self.entries@.len() <= u32::MAX
    }

    open spec fn spec_header_size(&self) -> nat {
        12
    }

    open spec fn spec_data_size(&self) -> nat {
        4 + 12 * self.entries@.len()
    }

    fn typ(&self) -> (r: BoxType) {
        BoxType::Stsc
    }

    fn header_size(&self) -> (r: u64) {
        12
    }

    fn data_size(&self) -> (r: u64) {
        4 + 12 * self.entries.len() as u64
    }
}

impl ReadBox for StscBox {
    open spec fn outcome(b: Seq<u8>, pos: int, h: BoxHeader) -> Result<nat, Error> {
        let count = table_count(b, pos);
        if !fits(b, pos, 8) || !fits(b, pos, 8 + 12 * count) {
            Err(Error::UnexpectedEof)
        } else if count > 0 && stsc_first_sample(b, pos + 8, (count - 1) as nat) is None {
            Err(Error::InvalidData(Reason::StscOverflow))
        } else {
            Ok((16 + 12 * count) as nat)
        }
    }

    open spec fn decodes(b: Seq<u8>, pos: int, h: BoxHeader, x: Self) -> bool {
        &&& x.version == be_at(b, pos, 1)
        &&& x.flags == be_at(b, pos + 1, 3)
        &&& x.entries@.len() == table_count(b, pos)
        &&& forall|i: int|
            0 <= i < x.entries@.len() ==> {
                let e = #[trigger] x.entries@[i];
                let p = pos + 8 + 12 * i;
                &&& e.first_chunk == be_at(b, p, 4)
                &&& e.sample_per_chunk == be_at(b, p + 4, 4)
                &&& e.sample_description_index == be_at(b, p + 8, 4)
                &&& Some(e.first_sample as nat) == stsc_first_sample(b, pos + 8, i as nat)
            }
    }

    fn read(b: &[u8], pos: usize, h: &BoxHeader) -> (r: Result<Self, Error>) {
        let (version, flags, count) = table_header(b, pos, 12)?;
        let _len = b.len();
        let ghost p = pos + 8;
        let mut entries: Vec<StscEntry> = Vec::new();
        let mut sample_id: u32 = 1;
        let mut i: u32 = 0;
        while i < count
            invariant
                b@.len() <= usize::MAX,
                fits(b@, pos as int, 8 + 12 * count),
                count == table_count(b@, pos as int),
                p == pos + 8,
                i <= count,
                entries@.len() == i,
                i < count ==> stsc_first_sample(b@, p, i as nat) == Some(sample_id as nat),
                0 < i ==> stsc_first_sample(b@, p, (i - 1) as nat) is Some,
                forall|j: int|
                    0 <= j < i ==> {
                        let e = #[trigger] entries@[j];
                        let q = pos + 8 + 12 * j;
                        &&& e.first_chunk == be_at(b@, q, 4)
                        &&& e.sample_per_chunk == be_at(b@, q + 4, 4)
                        &&& e.sample_description_index == be_at(b@, q + 8, 4)
                        &&& Some(e.first_sample as nat) == stsc_first_sample(b@, p, j as nat)
                    },
            decreases count - i,
        {
            let q = pos + 8 + 12 * i as usize;
            let first_chunk = u32_at(b, q);
            let sample_per_chunk = u32_at(b, q + 4);
            entries.push(
                StscEntry {
                    first_chunk,
                    sample_per_chunk,
                    sample_description_index: u32_at(b, q + 8),
                    first_sample: sample_id,
                },
            );
            if i < count - 1 {
                let next_chunk = u32_at(b, q + 12);
                let next = match next_chunk.checked_sub(first_chunk) {
                    None => None,
                    Some(n) => match n.checked_mul(sample_per_chunk) {
                        None => None,
                        Some(n) => n.checked_add(sample_id),
                    },
                };
                match next {
                    Some(n) => {
                        sample_id = n;
                    },
                    None => {
                        proof {
                            lemma_stsc_none_stays(b@, p, (i + 1) as nat, (count - 1) as nat);
                        }
                        return Err(Error::InvalidData(Reason::StscOverflow));
                    },
                }
            }
            i = i + 1;
        }
        Ok(StscBox { version, flags, entries })
    }
}


} // verus!
