//! `ftyp`: the file type and its compatible brands.
use crate::boxes::{fourcc_at, Ibox, ReadBox};
use crate::wire::{be_at, fits, read_be32, Error, Reason};
use crate::header::BoxHeader;
use crate::registry::BoxType;
use crate::types::FourCC;
use vstd::prelude::*;

verus! {

#[derive(Clone, Debug, PartialEq, Eq)]
pub struct FtypBox {
    pub major_brand: FourCC,
    pub minor_version: u32,
    pub compatible_brands: Vec<FourCC>,
}

/// The number of compatible brands that a well-sized `ftyp` box holds.
pub open spec fn ftyp_brand_count(h: BoxHeader) -> int {
    (h.size - 16) / 4
}

impl Ibox for FtypBox {
    open spec fn kind() -> BoxType {
        BoxType::Ftyp
    }

    open spec fn inv(&self) -> bool {
        16 + 4 * self.compatible_brands@.len() <= u64::MAX
    }

    open spec fn spec_header_size(&self) -> nat {
        8
    }

    open spec fn spec_data_size(&self) -> nat {
        8 + 4 * self.compatible_brands@.len()
    }

    fn typ(&self) -> (r: BoxType) {
        BoxType::Ftyp
    }

    fn header_size(&self) -> (r: u64) {
        8
    }

    fn data_size(&self) -> (r: u64) {
        8 + 4 * self.compatible_brands.len() as u64
    }
}

impl ReadBox for FtypBox {
    open spec fn outcome(b: Seq<u8>, pos: int, h: BoxHeader) -> Result<nat, Error> {
        if h.size < 16 || h.size % 4 != 0 {
            Err(Error::InvalidData(Reason::FtypSize))
        } else if !fits(b, pos, 8 + 4 * ftyp_brand_count(h)) {
            Err(Error::UnexpectedEof)
        } else {
            Ok((16 + 4 * ftyp_brand_count(h)) as nat)
        }
    }

    open spec fn decodes(b: Seq<u8>, pos: int, h: BoxHeader, x: Self) -> bool {
        &&& x.major_brand.value@ == b.subrange(pos, pos + 4)
        &&& x.minor_version == be_at(b, pos + 4, 4)
        &&& x.compatible_brands@.len() == ftyp_brand_count(h)
        &&& forall|i: int|
            0 <= i < x.compatible_brands@.len() ==> (#[trigger] x.compatible_brands@[i]).value@
                == b.subrange(pos + 8 + 4 * i, pos + 12 + 4 * i)
    }

    fn read(b: &[u8], pos: usize, h: &BoxHeader) -> (r: Result<Self, Error>) {
        if h.size < 16 || h.size % 4 != 0 {
            return Err(Error::InvalidData(Reason::FtypSize));
        }
        let count = (h.size - 16) / 4;
        if pos > b.len() || b.len() - pos < 8 || ((b.len() - pos - 8) as u64) < 4 * count {
            return Err(Error::UnexpectedEof);
        }
        let major_brand = fourcc_at(b, pos);
        let minor_version = read_be32(b, pos + 4, 4)?;
        let mut compatible_brands: Vec<FourCC> = Vec::new();
        let mut i: usize = 0;
        while (i as u64) < count
            invariant
                count == ftyp_brand_count(*h),
                pos + 8 + 4 * count <= b@.len() <= usize::MAX,
                i <= count,
                compatible_brands@.len() == i,
                forall|j: int|
                    0 <= j < i ==> (#[trigger] compatible_brands@[j]).value@
                        == b@.subrange(pos + 8 + 4 * j, pos + 12 + 4 * j),
            decreases count - i,
        {
            compatible_brands.push(fourcc_at(b, pos + 8 + 4 * i));
            i = i + 1;
        }
        Ok(FtypBox { major_brand, minor_version, compatible_brands })
    }
}

} // verus!
