//! The closed table of box kinds and their four-character tags.
use vstd::prelude::*;

verus! {

/// The kind of a box, by its type tag; tags outside the table are kept
/// verbatim in `UnKnown`.
#[derive(Clone, Copy, Debug, PartialEq, Eq, Structural)]
pub enum BoxType {
    Phtm,
    Ftyp,
    Mvhd,
    Moov,
    Tkhd,
    Edts,
    Mdia,
    Mdhd,
    Hdlr,
    Minf,
    Vmhd,
    Stbl,
    Stsd,
    Stts,
    Ctts,
    Stss,
    Stsc,
    Stsz,
    Stco,
    Trak,
    Dinf,
    Dref,
    Url,
    Smhd,
    Avc1,
    AvcC,
    Pasp,
    UnKnown(u32),
}

/// The kind that a tag names.
pub open spec fn box_type_of(tag: u32) -> BoxType {
    match tag {
        0x2d_2d_2d_2d => BoxType::Phtm,
        0x66_74_79_70 => BoxType::Ftyp,
        0x6d_76_68_64 => BoxType::Mvhd,
        0x6d_6f_6f_76 => BoxType::Moov,
        0x74_6b_68_64 => BoxType::Tkhd,
        0x65_64_74_73 => BoxType::Edts,
        0x6d_64_69_61 => BoxType::Mdia,
        0x6d_64_68_64 => BoxType::Mdhd,
        0x68_64_6c_72 => BoxType::Hdlr,
        0x6d_69_6e_66 => BoxType::Minf,
        0x76_6d_68_64 => BoxType::Vmhd,
        0x73_74_62_6c => BoxType::Stbl,
        0x73_74_73_64 => BoxType::Stsd,
        0x73_74_74_73 => BoxType::Stts,
        0x63_74_74_73 => BoxType::Ctts,
        0x73_74_73_73 => BoxType::Stss,
        0x73_74_73_63 => BoxType::Stsc,
        0x73_74_73_7a => BoxType::Stsz,
        0x73_74_63_6f => BoxType::Stco,
        0x74_72_61_6b => BoxType::Trak,
        0x64_69_6e_66 => BoxType::Dinf,
        0x64_72_65_66 => BoxType::Dref,
        0x75_72_6c_20 => BoxType::Url,
        0x73_6d_68_64 => BoxType::Smhd,
        0x61_76_63_31 => BoxType::Avc1,
        0x61_76_63_43 => BoxType::AvcC,
        0x70_61_73_70 => BoxType::Pasp,
        _ => BoxType::UnKnown(tag),
    }
}

/// The tag of a kind.
pub open spec fn tag_of(t: BoxType) -> u32 {
    match t {
        BoxType::Phtm => 0x2d_2d_2d_2d,
        BoxType::Ftyp => 0x66_74_79_70,
        BoxType::Mvhd => 0x6d_76_68_64,
        BoxType::Moov => 0x6d_6f_6f_76,
        BoxType::Tkhd => 0x74_6b_68_64,
        BoxType::Edts => 0x65_64_74_73,
        BoxType::Mdia => 0x6d_64_69_61,
        BoxType::Mdhd => 0x6d_64_68_64,
        BoxType::Hdlr => 0x68_64_6c_72,
        BoxType::Minf => 0x6d_69_6e_66,
        BoxType::Vmhd => 0x76_6d_68_64,
        BoxType::Stbl => 0x73_74_62_6c,
        BoxType::Stsd => 0x73_74_73_64,
        BoxType::Stts => 0x73_74_74_73,
        BoxType::Ctts => 0x63_74_74_73,
        BoxType::Stss => 0x73_74_73_73,
        BoxType::Stsc => 0x73_74_73_63,
        BoxType::Stsz => 0x73_74_73_7a,
        BoxType::Stco => 0x73_74_63_6f,
        BoxType::Trak => 0x74_72_61_6b,
        BoxType::Dinf => 0x64_69_6e_66,
        BoxType::Dref => 0x64_72_65_66,
        BoxType::Url => 0x75_72_6c_20,
        BoxType::Smhd => 0x73_6d_68_64,
        BoxType::Avc1 => 0x61_76_63_31,
        BoxType::AvcC => 0x61_76_63_43,
        BoxType::Pasp => 0x70_61_73_70,
        BoxType::UnKnown(tag) => tag,
    }
}

impl BoxType {
    /// The kind that `tag` names.
    pub fn from_tag(tag: u32) -> (r: BoxType)
        ensures
            r == box_type_of(tag),
    {
        match tag {
            0x2d_2d_2d_2d => BoxType::Phtm,
            0x66_74_79_70 => BoxType::Ftyp,
            0x6d_76_68_64 => BoxType::Mvhd,
            0x6d_6f_6f_76 => BoxType::Moov,
            0x74_6b_68_64 => BoxType::Tkhd,
            0x65_64_74_73 => BoxType::Edts,
            0x6d_64_69_61 => BoxType::Mdia,
            0x6d_64_68_64 => BoxType::Mdhd,
            0x68_64_6c_72 => BoxType::Hdlr,
            0x6d_69_6e_66 => BoxType::Minf,
            0x76_6d_68_64 => BoxType::Vmhd,
            0x73_74_62_6c => BoxType::Stbl,
            0x73_74_73_64 => BoxType::Stsd,
            0x73_74_74_73 => BoxType::Stts,
            0x63_74_74_73 => BoxType::Ctts,
            0x73_74_73_73 => BoxType::Stss,
            0x73_74_73_63 => BoxType::Stsc,
            0x73_74_73_7a => BoxType::Stsz,
            0x73_74_63_6f => BoxType::Stco,
            0x74_72_61_6b => BoxType::Trak,
            0x64_69_6e_66 => BoxType::Dinf,
            0x64_72_65_66 => BoxType::Dref,
            0x75_72_6c_20 => BoxType::Url,
            0x73_6d_68_64 => BoxType::Smhd,
            0x61_76_63_31 => BoxType::Avc1,
            0x61_76_63_43 => BoxType::AvcC,
            0x70_61_73_70 => BoxType::Pasp,
            _ => BoxType::UnKnown(tag),
        }
    }

    /// The tag of this kind.
    pub fn tag(&self) -> (r: u32)
        ensures
            r == tag_of(*self),
    {
        match *self {
            BoxType::Phtm => 0x2d_2d_2d_2d,
            BoxType::Ftyp => 0x66_74_79_70,
            BoxType::Mvhd => 0x6d_76_68_64,
            BoxType::Moov => 0x6d_6f_6f_76,
            BoxType::Tkhd => 0x74_6b_68_64,
            BoxType::Edts => 0x65_64_74_73,
            BoxType::Mdia => 0x6d_64_69_61,
            BoxType::Mdhd => 0x6d_64_68_64,
            BoxType::Hdlr => 0x68_64_6c_72,
            BoxType::Minf => 0x6d_69_6e_66,
            BoxType::Vmhd => 0x76_6d_68_64,
            BoxType::Stbl => 0x73_74_62_6c,
            BoxType::Stsd => 0x73_74_73_64,
            BoxType::Stts => 0x73_74_74_73,
            BoxType::Ctts => 0x63_74_74_73,
            BoxType::Stss => 0x73_74_73_73,
            BoxType::Stsc => 0x73_74_73_63,
            BoxType::Stsz => 0x73_74_73_7a,
            BoxType::Stco => 0x73_74_63_6f,
            BoxType::Trak => 0x74_72_61_6b,
            BoxType::Dinf => 0x64_69_6e_66,
            BoxType::Dref => 0x64_72_65_66,
            BoxType::Url => 0x75_72_6c_20,
            BoxType::Smhd => 0x73_6d_68_64,
            BoxType::Avc1 => 0x61_76_63_31,
            BoxType::AvcC => 0x61_76_63_43,
            BoxType::Pasp => 0x70_61_73_70,
            BoxType::UnKnown(tag) => tag,
        }
    }
}

impl From<u32> for BoxType {
    fn from(tag: u32) -> BoxType {
        BoxType::from_tag(tag)
    }
}

impl vstd::std_specs::convert::FromSpecImpl<u32> for BoxType {
    open spec fn obeys_from_spec() -> bool {
        true
    }

    open spec fn from_spec(tag: u32) -> BoxType {
        box_type_of(tag)
    }
}

impl From<BoxType> for u32 {
    fn from(t: BoxType) -> u32 {
        t.tag()
    }
}

impl vstd::std_specs::convert::FromSpecImpl<BoxType> for u32 {
    open spec fn obeys_from_spec() -> bool {
        true
    }

    open spec fn from_spec(t: BoxType) -> u32 {
        tag_of(t)
    }
}

/// Every tag survives the trip through its kind, unknown tags included.
pub proof fn lemma_tag_round_trip(tag: u32)
    ensures
        tag_of(box_type_of(tag)) == tag,
{
}

/// A tag is classified as unknown exactly when no kind of the table has it,
/// and then it is kept as it is.
pub proof fn lemma_unknown_tags(tag: u32)
    ensures
        box_type_of(tag) is UnKnown <==> (forall|t: BoxType| !(t is UnKnown) ==> tag_of(t) != tag),
        box_type_of(tag) is UnKnown ==> box_type_of(tag) == BoxType::UnKnown(tag),
{
    if !(box_type_of(tag) is UnKnown) {
        let t = box_type_of(tag);
        assert(!(t is UnKnown) && tag_of(t) == tag);
    }
}

} // verus!
