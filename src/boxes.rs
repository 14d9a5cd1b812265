//! The payload contract that each box kind meets, the closed set of decoded
//! payloads, and the nodes of a decoded tree.
use crate::wire::Error;
use crate::header::BoxHeader;
use crate::registry::BoxType;
use crate::types::FourCC;
use vstd::prelude::*;

pub mod containers;
pub mod dataref;
pub mod ftyp;
pub mod media;
pub mod movie;
pub mod sample;
pub mod tables;

pub use containers::{DinfBox, EdtsBox, MdiaBox, MinfBox, MoovBox, PhtmBox, StblBox, TrakBox};
pub use dataref::{DrefBox, UrlBox};
pub use ftyp::FtypBox;
pub use media::{HdlrBox, MdhdBox, SmhdBox, VmhdBox};
pub use movie::{MvhdBox, TkhdBox};
pub use sample::{Avc1Box, AvcCBox, PaspBox, StsdBox};
pub use tables::{CttsBox, StcoBox, StscBox, StssBox, StszBox, SttsBox};

verus! {

/// Sizes that a decoded payload reports of itself.
pub trait Ibox: Sized {
    /// The kind of box this payload belongs to.
    spec fn kind() -> BoxType;

    /// Bounds on the payload that keep its sizes within 64 bits.
    spec fn inv(&self) -> bool;

    spec fn spec_header_size(&self) -> nat;

    spec fn spec_data_size(&self) -> nat;

    fn typ(&self) -> (r: BoxType)
        ensures
            r == Self::kind(),
    ;

    /// Bytes of header that the payload accounts for: 8, or 12 with a
    /// version-and-flags sub-header.
    fn header_size(&self) -> (r: u64)
        ensures
            r == self.spec_header_size(),
    ;

    /// Bytes of data that the payload accounts for after its header.
    fn data_size(&self) -> (r: u64)
        requires
            self.inv(),
        ensures
            r == self.spec_data_size(),
    ;
}

/// Decoding of a payload from the bytes that follow its box header.
pub trait ReadBox: Ibox {
    /// The effective size (header and data) that decoding the bytes at `pos`
    /// gives, or the error it fails with.
    spec fn outcome(b: Seq<u8>, pos: int, h: BoxHeader) -> Result<nat, Error>;

    /// Whether `x` holds exactly what the bytes at `pos` say.
    spec fn decodes(b: Seq<u8>, pos: int, h: BoxHeader, x: Self) -> bool;

    /// Decodes the payload whose data starts at `pos` in `b`; a slice never
    /// holds more than `isize::MAX` bytes.
    fn read(b: &[u8], pos: usize, h: &BoxHeader) -> (r: Result<Self, Error>)
        requires
            b@.len() <= isize::MAX,
        ensures
            match r {
                Ok(x) => {
                    &&& Self::decodes(b@, pos as int, *h, x)
                    &&& x.inv()
                    &&& 8 <= x.spec_header_size()
                    &&& x.spec_header_size() + x.spec_data_size() <= u64::MAX
                    &&& Self::outcome(b@, pos as int, *h) == Ok::<nat, Error>(
                        x.spec_header_size() + x.spec_data_size(),
                    )
                },
                Err(e) => Self::outcome(b@, pos as int, *h) == Err::<nat, Error>(e),
            },
    ;
}

/// The four bytes at `p` as a code.
pub fn fourcc_at(b: &[u8], p: usize) -> (r: FourCC)
    requires
        p + 4 <= b@.len(),
    ensures
        r.value@ == b@.subrange(p as int, p + 4),
{
    let r = FourCC { value: [b[p], b[p + 1], b[p + 2], b[p + 3]] };
    assert(r.value@ =~= b@.subrange(p as int, p + 4));
    r
}

/// A decoded payload, one variant per known kind.
#[derive(Clone, Debug)]
pub enum BoxData {
    Phtm(PhtmBox),
    Ftyp(FtypBox),
    Moov(MoovBox),
    Trak(TrakBox),
    Edts(EdtsBox),
    Mdia(MdiaBox),
    Minf(MinfBox),
    Stbl(StblBox),
    Dinf(DinfBox),
    Mvhd(MvhdBox),
    Tkhd(TkhdBox),
    Mdhd(MdhdBox),
    Hdlr(HdlrBox),
    Vmhd(VmhdBox),
    Smhd(SmhdBox),
    Dref(DrefBox),
    Url(UrlBox),
    Stsd(StsdBox),
    Avc1(Avc1Box),
    AvcC(AvcCBox),
    Pasp(PaspBox),
    Stts(SttsBox),
    Ctts(CttsBox),
    Stss(StssBox),
    Stsc(StscBox),
    Stsz(StszBox),
    Stco(StcoBox),
}

/// What decoding the payload of a box with header `h`, whose data starts at
/// `pos`, gives: `None` for a kind that traversal skips, else the effective
/// size or the error.
pub open spec fn payload_outcome(b: Seq<u8>, pos: int, h: BoxHeader) -> Option<Result<nat, Error>> {
    match h.typ {
        BoxType::Ftyp => Some(FtypBox::outcome(b, pos, h)),
        BoxType::Moov => Some(MoovBox::outcome(b, pos, h)),
        BoxType::Trak => Some(TrakBox::outcome(b, pos, h)),
        BoxType::Edts => Some(EdtsBox::outcome(b, pos, h)),
        BoxType::Mdia => Some(MdiaBox::outcome(b, pos, h)),
        BoxType::Minf => Some(MinfBox::outcome(b, pos, h)),
        BoxType::Stbl => Some(StblBox::outcome(b, pos, h)),
        BoxType::Dinf => Some(DinfBox::outcome(b, pos, h)),
        BoxType::Mvhd => Some(MvhdBox::outcome(b, pos, h)),
        BoxType::Tkhd => Some(TkhdBox::outcome(b, pos, h)),
        BoxType::Mdhd => Some(MdhdBox::outcome(b, pos, h)),
        BoxType::Hdlr => Some(HdlrBox::outcome(b, pos, h)),
        BoxType::Vmhd => Some(VmhdBox::outcome(b, pos, h)),
        BoxType::Smhd => Some(SmhdBox::outcome(b, pos, h)),
        BoxType::Dref => Some(DrefBox::outcome(b, pos, h)),
        BoxType::Url => Some(UrlBox::outcome(b, pos, h)),
        BoxType::Stsd => Some(StsdBox::outcome(b, pos, h)),
        BoxType::Avc1 => Some(Avc1Box::outcome(b, pos, h)),
        BoxType::AvcC => Some(AvcCBox::outcome(b, pos, h)),
        BoxType::Pasp => Some(PaspBox::outcome(b, pos, h)),
        BoxType::Stts => Some(SttsBox::outcome(b, pos, h)),
        BoxType::Ctts => Some(CttsBox::outcome(b, pos, h)),
        BoxType::Stss => Some(StssBox::outcome(b, pos, h)),
        BoxType::Stsc => Some(StscBox::outcome(b, pos, h)),
        BoxType::Stsz => Some(StszBox::outcome(b, pos, h)),
        BoxType::Stco => Some(StcoBox::outcome(b, pos, h)),
        _ => None,
    }
}

impl BoxData {
    pub open spec fn inv(&self) -> bool {
        match self {
            BoxData::Phtm(x) => x.inv(),
            BoxData::Ftyp(x) => x.inv(),
            BoxData::Moov(x) => x.inv(),
            BoxData::Trak(x) => x.inv(),
            BoxData::Edts(x) => x.inv(),
            BoxData::Mdia(x) => x.inv(),
            BoxData::Minf(x) => x.inv(),
            BoxData::Stbl(x) => x.inv(),
            BoxData::Dinf(x) => x.inv(),
            BoxData::Mvhd(x) => x.inv(),
            BoxData::Tkhd(x) => x.inv(),
            BoxData::Mdhd(x) => x.inv(),
            BoxData::Hdlr(x) => x.inv(),
            BoxData::Vmhd(x) => x.inv(),
            BoxData::Smhd(x) => x.inv(),
            BoxData::Dref(x) => x.inv(),
            BoxData::Url(x) => x.inv(),
            BoxData::Stsd(x) => x.inv(),
            BoxData::Avc1(x) => x.inv(),
            BoxData::AvcC(x) => x.inv(),
            BoxData::Pasp(x) => x.inv(),
            BoxData::Stts(x) => x.inv(),
            BoxData::Ctts(x) => x.inv(),
            BoxData::Stss(x) => x.inv(),
            BoxData::Stsc(x) => x.inv(),
            BoxData::Stsz(x) => x.inv(),
            BoxData::Stco(x) => x.inv(),
        }
    }

    /// Header size plus data size, as the payload reports them.
    pub open spec fn spec_effective_size(&self) -> nat {
        match self {
            BoxData::Phtm(x) => x.spec_header_size() + x.spec_data_size(),
            BoxData::Ftyp(x) => x.spec_header_size() + x.spec_data_size(),
            BoxData::Moov(x) => x.spec_header_size() + x.spec_data_size(),
            BoxData::Trak(x) => x.spec_header_size() + x.spec_data_size(),
            BoxData::Edts(x) => x.spec_header_size() + x.spec_data_size(),
            BoxData::Mdia(x) => x.spec_header_size() + x.spec_data_size(),
            BoxData::Minf(x) => x.spec_header_size() + x.spec_data_size(),
            BoxData::Stbl(x) => x.spec_header_size() + x.spec_data_size(),
            BoxData::Dinf(x) => x.spec_header_size() + x.spec_data_size(),
            BoxData::Mvhd(x) => x.spec_header_size() + x.spec_data_size(),
            BoxData::Tkhd(x) => x.spec_header_size() + x.spec_data_size(),
            BoxData::Mdhd(x) => x.spec_header_size() + x.spec_data_size(),
            BoxData::Hdlr(x) => x.spec_header_size() + x.spec_data_size(),
            BoxData::Vmhd(x) => x.spec_header_size() + x.spec_data_size(),
            BoxData::Smhd(x) => x.spec_header_size() + x.spec_data_size(),
            BoxData::Dref(x) => x.spec_header_size() + x.spec_data_size(),
            BoxData::Url(x) => x.spec_header_size() + x.spec_data_size(),
            BoxData::Stsd(x) => x.spec_header_size() + x.spec_data_size(),
            BoxData::Avc1(x) => x.spec_header_size() + x.spec_data_size(),
            BoxData::AvcC(x) => x.spec_header_size() + x.spec_data_size(),
            BoxData::Pasp(x) => x.spec_header_size() + x.spec_data_size(),
            BoxData::Stts(x) => x.spec_header_size() + x.spec_data_size(),
            BoxData::Ctts(x) => x.spec_header_size() + x.spec_data_size(),
            BoxData::Stss(x) => x.spec_header_size() + x.spec_data_size(),
            BoxData::Stsc(x) => x.spec_header_size() + x.spec_data_size(),
            BoxData::Stsz(x) => x.spec_header_size() + x.spec_data_size(),
            BoxData::Stco(x) => x.spec_header_size() + x.spec_data_size(),
        }
    }

    /// Whether this payload is what the bytes at `pos` decode to, under header `h`.
    pub open spec fn decodes(&self, b: Seq<u8>, pos: int, h: BoxHeader) -> bool {
        match self {
            BoxData::Phtm(x) => h.typ == BoxType::Phtm && PhtmBox::decodes(b, pos, h, *x),
            BoxData::Ftyp(x) => h.typ == BoxType::Ftyp && FtypBox::decodes(b, pos, h, *x),
            BoxData::Moov(x) => h.typ == BoxType::Moov && MoovBox::decodes(b, pos, h, *x),
            BoxData::Trak(x) => h.typ == BoxType::Trak && TrakBox::decodes(b, pos, h, *x),
            BoxData::Edts(x) => h.typ == BoxType::Edts && EdtsBox::decodes(b, pos, h, *x),
            BoxData::Mdia(x) => h.typ == BoxType::Mdia && MdiaBox::decodes(b, pos, h, *x),
            BoxData::Minf(x) => h.typ == BoxType::Minf && MinfBox::decodes(b, pos, h, *x),
            BoxData::Stbl(x) => h.typ == BoxType::Stbl && StblBox::decodes(b, pos, h, *x),
            BoxData::Dinf(x) => h.typ == BoxType::Dinf && DinfBox::decodes(b, pos, h, *x),
            BoxData::Mvhd(x) => h.typ == BoxType::Mvhd && MvhdBox::decodes(b, pos, h, *x),
            BoxData::Tkhd(x) => h.typ == BoxType::Tkhd && TkhdBox::decodes(b, pos, h, *x),
            BoxData::Mdhd(x) => h.typ == BoxType::Mdhd && MdhdBox::decodes(b, pos, h, *x),
            BoxData::Hdlr(x) => h.typ == BoxType::Hdlr && HdlrBox::decodes(b, pos, h, *x),
            BoxData::Vmhd(x) => h.typ == BoxType::Vmhd && VmhdBox::decodes(b, pos, h, *x),
            BoxData::Smhd(x) => h.typ == BoxType::Smhd && SmhdBox::decodes(b, pos, h, *x),
            BoxData::Dref(x) => h.typ == BoxType::Dref && DrefBox::decodes(b, pos, h, *x),
            BoxData::Url(x) => h.typ == BoxType::Url && UrlBox::decodes(b, pos, h, *x),
            BoxData::Stsd(x) => h.typ == BoxType::Stsd && StsdBox::decodes(b, pos, h, *x),
            BoxData::Avc1(x) => h.typ == BoxType::Avc1 && Avc1Box::decodes(b, pos, h, *x),
            BoxData::AvcC(x) => h.typ == BoxType::AvcC && AvcCBox::decodes(b, pos, h, *x),
            BoxData::Pasp(x) => h.typ == BoxType::Pasp && PaspBox::decodes(b, pos, h, *x),
            BoxData::Stts(x) => h.typ == BoxType::Stts && SttsBox::decodes(b, pos, h, *x),
            BoxData::Ctts(x) => h.typ == BoxType::Ctts && CttsBox::decodes(b, pos, h, *x),
            BoxData::Stss(x) => h.typ == BoxType::Stss && StssBox::decodes(b, pos, h, *x),
            BoxData::Stsc(x) => h.typ == BoxType::Stsc && StscBox::decodes(b, pos, h, *x),
            BoxData::Stsz(x) => h.typ == BoxType::Stsz && StszBox::decodes(b, pos, h, *x),
            BoxData::Stco(x) => h.typ == BoxType::Stco && StcoBox::decodes(b, pos, h, *x),
        }
    }

    pub open spec fn spec_typ(&self) -> BoxType {
        match self {
            BoxData::Phtm(_) => BoxType::Phtm,
            BoxData::Ftyp(_) => BoxType::Ftyp,
            BoxData::Moov(_) => BoxType::Moov,
            BoxData::Trak(_) => BoxType::Trak,
            BoxData::Edts(_) => BoxType::Edts,
            BoxData::Mdia(_) => BoxType::Mdia,
            BoxData::Minf(_) => BoxType::Minf,
            BoxData::Stbl(_) => BoxType::Stbl,
            BoxData::Dinf(_) => BoxType::Dinf,
            BoxData::Mvhd(_) => BoxType::Mvhd,
            BoxData::Tkhd(_) => BoxType::Tkhd,
            BoxData::Mdhd(_) => BoxType::Mdhd,
            BoxData::Hdlr(_) => BoxType::Hdlr,
            BoxData::Vmhd(_) => BoxType::Vmhd,
            BoxData::Smhd(_) => BoxType::Smhd,
            BoxData::Dref(_) => BoxType::Dref,
            BoxData::Url(_) => BoxType::Url,
            BoxData::Stsd(_) => BoxType::Stsd,
            BoxData::Avc1(_) => BoxType::Avc1,
            BoxData::AvcC(_) => BoxType::AvcC,
            BoxData::Pasp(_) => BoxType::Pasp,
            BoxData::Stts(_) => BoxType::Stts,
            BoxData::Ctts(_) => BoxType::Ctts,
            BoxData::Stss(_) => BoxType::Stss,
            BoxData::Stsc(_) => BoxType::Stsc,
            BoxData::Stsz(_) => BoxType::Stsz,
            BoxData::Stco(_) => BoxType::Stco,
        }
    }

    /// The kind of this payload.
    pub fn typ(&self) -> (r: BoxType)
        ensures
            r == self.spec_typ(),
    {
        match self {
            BoxData::Phtm(x) => x.typ(),
            BoxData::Ftyp(x) => x.typ(),
            BoxData::Moov(x) => x.typ(),
            BoxData::Trak(x) => x.typ(),
            BoxData::Edts(x) => x.typ(),
            BoxData::Mdia(x) => x.typ(),
            BoxData::Minf(x) => x.typ(),
            BoxData::Stbl(x) => x.typ(),
            BoxData::Dinf(x) => x.typ(),
            BoxData::Mvhd(x) => x.typ(),
            BoxData::Tkhd(x) => x.typ(),
            BoxData::Mdhd(x) => x.typ(),
            BoxData::Hdlr(x) => x.typ(),
            BoxData::Vmhd(x) => x.typ(),
            BoxData::Smhd(x) => x.typ(),
            BoxData::Dref(x) => x.typ(),
            BoxData::Url(x) => x.typ(),
            BoxData::Stsd(x) => x.typ(),
            BoxData::Avc1(x) => x.typ(),
            BoxData::AvcC(x) => x.typ(),
            BoxData::Pasp(x) => x.typ(),
            BoxData::Stts(x) => x.typ(),
            BoxData::Ctts(x) => x.typ(),
            BoxData::Stss(x) => x.typ(),
            BoxData::Stsc(x) => x.typ(),
            BoxData::Stsz(x) => x.typ(),
            BoxData::Stco(x) => x.typ(),
        }
    }

    /// Header size plus data size, as the payload reports them.
    pub fn effective_size(&self) -> (r: u64)
        requires
            self.inv(),
            self.spec_effective_size() <= u64::MAX,
        ensures
            r == self.spec_effective_size(),
    {
        match self {
            BoxData::Phtm(x) => x.header_size() + x.data_size(),
            BoxData::Ftyp(x) => x.header_size() + x.data_size(),
            BoxData::Moov(x) => x.header_size() + x.data_size(),
            BoxData::Trak(x) => x.header_size() + x.data_size(),
            BoxData::Edts(x) => x.header_size() + x.data_size(),
            BoxData::Mdia(x) => x.header_size() + x.data_size(),
            BoxData::Minf(x) => x.header_size() + x.data_size(),
            BoxData::Stbl(x) => x.header_size() + x.data_size(),
            BoxData::Dinf(x) => x.header_size() + x.data_size(),
            BoxData::Mvhd(x) => x.header_size() + x.data_size(),
            BoxData::Tkhd(x) => x.header_size() + x.data_size(),
            BoxData::Mdhd(x) => x.header_size() + x.data_size(),
            BoxData::Hdlr(x) => x.header_size() + x.data_size(),
            BoxData::Vmhd(x) => x.header_size() + x.data_size(),
            BoxData::Smhd(x) => x.header_size() + x.data_size(),
            BoxData::Dref(x) => x.header_size() + x.data_size(),
            BoxData::Url(x) => x.header_size() + x.data_size(),
            BoxData::Stsd(x) => x.header_size() + x.data_size(),
            BoxData::Avc1(x) => x.header_size() + x.data_size(),
            BoxData::AvcC(x) => x.header_size() + x.data_size(),
            BoxData::Pasp(x) => x.header_size() + x.data_size(),
            BoxData::Stts(x) => x.header_size() + x.data_size(),
            BoxData::Ctts(x) => x.header_size() + x.data_size(),
            BoxData::Stss(x) => x.header_size() + x.data_size(),
            BoxData::Stsc(x) => x.header_size() + x.data_size(),
            BoxData::Stsz(x) => x.header_size() + x.data_size(),
            BoxData::Stco(x) => x.header_size() + x.data_size(),
        }
    }
}

/// What decoding a payload promises: `None` exactly for a kind that
/// traversal skips; otherwise the payload decoded from the bytes with its
/// effective size, or the error, as the kind's contract says.
#[verifier::opaque]
pub open spec fn payload_result(b: Seq<u8>, pos: int, h: BoxHeader, r: Option<Result<BoxData, Error>>) -> bool {
    match payload_outcome(b, pos, h) {
        None => r is None,
        Some(o) => match r {
            Some(Ok(d)) => {
                &&& d.decodes(b, pos, h)
                &&& d.inv()
                &&& 8 <= d.spec_effective_size() <= u64::MAX
                &&& o == Ok::<nat, Error>(d.spec_effective_size())
            },
            Some(Err(e)) => o == Err::<nat, Error>(e),
            None => false,
        },
    }
}

fn decode_ftyp(b: &[u8], pos: usize, h: &BoxHeader) -> (r: Option<Result<BoxData, Error>>)
    requires
        b@.len() <= isize::MAX,
        h.typ is Ftyp,
    ensures
        payload_result(b@, pos as int, *h, r),
{
    reveal(payload_result);
    match h.typ {
        BoxType::Ftyp => Some(
            match FtypBox::read(b, pos, h) {
                Ok(x) => Ok(BoxData::Ftyp(x)),
                Err(e) => Err(e),
            },
        ),
        _ => None,
    }
}

fn decode_containers(b: &[u8], pos: usize, h: &BoxHeader) -> (r: Option<Result<BoxData, Error>>)
    requires
        b@.len() <= isize::MAX,
        h.typ is Moov || h.typ is Trak || h.typ is Edts || h.typ is Mdia || h.typ is Minf || h.typ is Stbl || h.typ is Dinf,
    ensures
        payload_result(b@, pos as int, *h, r),
{
    reveal(payload_result);
    match h.typ {
        BoxType::Moov => Some(
            match MoovBox::read(b, pos, h) {
                Ok(x) => Ok(BoxData::Moov(x)),
                Err(e) => Err(e),
            },
        ),
        BoxType::Trak => Some(
            match TrakBox::read(b, pos, h) {
                Ok(x) => Ok(BoxData::Trak(x)),
                Err(e) => Err(e),
            },
        ),
        BoxType::Edts => Some(
            match EdtsBox::read(b, pos, h) {
                Ok(x) => Ok(BoxData::Edts(x)),
                Err(e) => Err(e),
            },
        ),
        BoxType::Mdia => Some(
            match MdiaBox::read(b, pos, h) {
                Ok(x) => Ok(BoxData::Mdia(x)),
                Err(e) => Err(e),
            },
        ),
        BoxType::Minf => Some(
            match MinfBox::read(b, pos, h) {
                Ok(x) => Ok(BoxData::Minf(x)),
                Err(e) => Err(e),
            },
        ),
        BoxType::Stbl => Some(
            match StblBox::read(b, pos, h) {
                Ok(x) => Ok(BoxData::Stbl(x)),
                Err(e) => Err(e),
            },
        ),
        BoxType::Dinf => Some(
            match DinfBox::read(b, pos, h) {
                Ok(x) => Ok(BoxData::Dinf(x)),
                Err(e) => Err(e),
            },
        ),
        _ => None,
    }
}

fn decode_movie(b: &[u8], pos: usize, h: &BoxHeader) -> (r: Option<Result<BoxData, Error>>)
    requires
        b@.len() <= isize::MAX,
        h.typ is Mvhd || h.typ is Tkhd,
    ensures
        payload_result(b@, pos as int, *h, r),
{
    reveal(payload_result);
    match h.typ {
        BoxType::Mvhd => Some(
            match MvhdBox::read(b, pos, h) {
                Ok(x) => Ok(BoxData::Mvhd(x)),
                Err(e) => Err(e),
            },
        ),
        BoxType::Tkhd => Some(
            match TkhdBox::read(b, pos, h) {
                Ok(x) => Ok(BoxData::Tkhd(x)),
                Err(e) => Err(e),
            },
        ),
        _ => None,
    }
}

fn decode_media(b: &[u8], pos: usize, h: &BoxHeader) -> (r: Option<Result<BoxData, Error>>)
    requires
        b@.len() <= isize::MAX,
        h.typ is Mdhd || h.typ is Hdlr || h.typ is Vmhd || h.typ is Smhd,
    ensures
        payload_result(b@, pos as int, *h, r),
{
    reveal(payload_result);
    match h.typ {
        BoxType::Mdhd => Some(
            match MdhdBox::read(b, pos, h) {
                Ok(x) => Ok(BoxData::Mdhd(x)),
                Err(e) => Err(e),
            },
        ),
        BoxType::Hdlr => Some(
            match HdlrBox::read(b, pos, h) {
                Ok(x) => Ok(BoxData::Hdlr(x)),
                Err(e) => Err(e),
            },
        ),
        BoxType::Vmhd => Some(
            match VmhdBox::read(b, pos, h) {
                Ok(x) => Ok(BoxData::Vmhd(x)),
                Err(e) => Err(e),
            },
        ),
        BoxType::Smhd => Some(
            match SmhdBox::read(b, pos, h) {
                Ok(x) => Ok(BoxData::Smhd(x)),
                Err(e) => Err(e),
            },
        ),
        _ => None,
    }
}

fn decode_dataref(b: &[u8], pos: usize, h: &BoxHeader) -> (r: Option<Result<BoxData, Error>>)
    requires
        b@.len() <= isize::MAX,
        h.typ is Dref || h.typ is Url,
    ensures
        payload_result(b@, pos as int, *h, r),
{
    reveal(payload_result);
    match h.typ {
        BoxType::Dref => Some(
            match DrefBox::read(b, pos, h) {
                Ok(x) => Ok(BoxData::Dref(x)),
                Err(e) => Err(e),
            },
        ),
        BoxType::Url => Some(
            match UrlBox::read(b, pos, h) {
                Ok(x) => Ok(BoxData::Url(x)),
                Err(e) => Err(e),
            },
        ),
        _ => None,
    }
}

fn decode_sample(b: &[u8], pos: usize, h: &BoxHeader) -> (r: Option<Result<BoxData, Error>>)
    requires
        b@.len() <= isize::MAX,
        h.typ is Stsd || h.typ is Avc1 || h.typ is AvcC || h.typ is Pasp,
    ensures
        payload_result(b@, pos as int, *h, r),
{
    reveal(payload_result);
    match h.typ {
        BoxType::Stsd => Some(
            match StsdBox::read(b, pos, h) {
                Ok(x) => Ok(BoxData::Stsd(x)),
                Err(e) => Err(e),
            },
        ),
        BoxType::Avc1 => Some(
            match Avc1Box::read(b, pos, h) {
                Ok(x) => Ok(BoxData::Avc1(x)),
                Err(e) => Err(e),
            },
        ),
        BoxType::AvcC => Some(
            match AvcCBox::read(b, pos, h) {
                Ok(x) => Ok(BoxData::AvcC(x)),
                Err(e) => Err(e),
            },
        ),
        BoxType::Pasp => Some(
            match PaspBox::read(b, pos, h) {
                Ok(x) => Ok(BoxData::Pasp(x)),
                Err(e) => Err(e),
            },
        ),
        _ => None,
    }
}

fn decode_tables(b: &[u8], pos: usize, h: &BoxHeader) -> (r: Option<Result<BoxData, Error>>)
    requires
        b@.len() <= isize::MAX,
        h.typ is Stts || h.typ is Ctts || h.typ is Stss || h.typ is Stsc || h.typ is Stsz || h.typ is Stco,
    ensures
        payload_result(b@, pos as int, *h, r),
{
    reveal(payload_result);
    match h.typ {
        BoxType::Stts => Some(
            match SttsBox::read(b, pos, h) {
                Ok(x) => Ok(BoxData::Stts(x)),
                Err(e) => Err(e),
            },
        ),
        BoxType::Ctts => Some(
            match CttsBox::read(b, pos, h) {
                Ok(x) => Ok(BoxData::Ctts(x)),
                Err(e) => Err(e),
            },
        ),
        BoxType::Stss => Some(
            match StssBox::read(b, pos, h) {
                Ok(x) => Ok(BoxData::Stss(x)),
                Err(e) => Err(e),
            },
        ),
        BoxType::Stsc => Some(
            match StscBox::read(b, pos, h) {
                Ok(x) => Ok(BoxData::Stsc(x)),
                Err(e) => Err(e),
            },
        ),
        BoxType::Stsz => Some(
            match StszBox::read(b, pos, h) {
                Ok(x) => Ok(BoxData::Stsz(x)),
                Err(e) => Err(e),
            },
        ),
        BoxType::Stco => Some(
            match StcoBox::read(b, pos, h) {
                Ok(x) => Ok(BoxData::Stco(x)),
                Err(e) => Err(e),
            },
        ),
        _ => None,
    }
}

/// Decodes the payload of a box with header `h` whose data starts at `pos`;
/// `None` for a kind that traversal skips.
pub fn decode_payload(b: &[u8], pos: usize, h: &BoxHeader) -> (r: Option<Result<BoxData, Error>>)
    requires
        b@.len() <= isize::MAX,
    ensures
        match payload_outcome(b@, pos as int, *h) {
            None => r is None,
            Some(o) => match r {
                Some(Ok(d)) => {
                    &&& d.decodes(b@, pos as int, *h)
                    &&& d.inv()
                    &&& 8 <= d.spec_effective_size() <= u64::MAX
                    &&& o == Ok::<nat, Error>(d.spec_effective_size())
                },
                Some(Err(e)) => o == Err::<nat, Error>(e),
                None => false,
            },
        },
{
    let r = match h.typ {
        BoxType::Ftyp => decode_ftyp(b, pos, h),
        BoxType::Moov | BoxType::Trak | BoxType::Edts | BoxType::Mdia | BoxType::Minf | BoxType::Stbl | BoxType::Dinf => decode_containers(b, pos, h),
        BoxType::Mvhd | BoxType::Tkhd => decode_movie(b, pos, h),
        BoxType::Mdhd | BoxType::Hdlr | BoxType::Vmhd | BoxType::Smhd => decode_media(b, pos, h),
        BoxType::Dref | BoxType::Url => decode_dataref(b, pos, h),
        BoxType::Stsd | BoxType::Avc1 | BoxType::AvcC | BoxType::Pasp => decode_sample(b, pos, h),
        BoxType::Stts | BoxType::Ctts | BoxType::Stss | BoxType::Stsc | BoxType::Stsz | BoxType::Stco => decode_tables(b, pos, h),
        _ => {
            proof {
                reveal(payload_result);
            }
            None
        },
    };
    proof {
        reveal(payload_result);
    }
    r
}

impl BoxData {
    /// The `phtm` payload, or `BoxNotFound` for a box of another kind.
    pub fn as_phtm(&self) -> (r: Result<&PhtmBox, Error>)
        ensures
            match self {
                BoxData::Phtm(x) => r == Ok::<&PhtmBox, Error>(x),
                _ => r == Err::<&PhtmBox, Error>(Error::BoxNotFound),
            },
    {
        match self {
            BoxData::Phtm(x) => Ok(x),
            _ => Err(Error::BoxNotFound),
        }
    }

    /// The `ftyp` payload, or `BoxNotFound` for a box of another kind.
    pub fn as_ftyp(&self) -> (r: Result<&FtypBox, Error>)
        ensures
            match self {
                BoxData::Ftyp(x) => r == Ok::<&FtypBox, Error>(x),
                _ => r == Err::<&FtypBox, Error>(Error::BoxNotFound),
            },
    {
        match self {
            BoxData::Ftyp(x) => Ok(x),
            _ => Err(Error::BoxNotFound),
        }
    }

    /// The `moov` payload, or `BoxNotFound` for a box of another kind.
    pub fn as_moov(&self) -> (r: Result<&MoovBox, Error>)
        ensures
            match self {
                BoxData::Moov(x) => r == Ok::<&MoovBox, Error>(x),
                _ => r == Err::<&MoovBox, Error>(Error::BoxNotFound),
            },
    {
        match self {
            BoxData::Moov(x) => Ok(x),
            _ => Err(Error::BoxNotFound),
        }
    }

    /// The `trak` payload, or `BoxNotFound` for a box of another kind.
    pub fn as_trak(&self) -> (r: Result<&TrakBox, Error>)
        ensures
            match self {
                BoxData::Trak(x) => r == Ok::<&TrakBox, Error>(x),
                _ => r == Err::<&TrakBox, Error>(Error::BoxNotFound),
            },
    {
        match self {
            BoxData::Trak(x) => Ok(x),
            _ => Err(Error::BoxNotFound),
        }
    }

    /// The `edts` payload, or `BoxNotFound` for a box of another kind.
    pub fn as_edts(&self) -> (r: Result<&EdtsBox, Error>)
        ensures
            match self {
                BoxData::Edts(x) => r == Ok::<&EdtsBox, Error>(x),
                _ => r == Err::<&EdtsBox, Error>(Error::BoxNotFound),
            },
    {
        match self {
            BoxData::Edts(x) => Ok(x),
            _ => Err(Error::BoxNotFound),
        }
    }

    /// The `mdia` payload, or `BoxNotFound` for a box of another kind.
    pub fn as_mdia(&self) -> (r: Result<&MdiaBox, Error>)
        ensures
            match self {
                BoxData::Mdia(x) => r == Ok::<&MdiaBox, Error>(x),
                _ => r == Err::<&MdiaBox, Error>(Error::BoxNotFound),
            },
    {
        match self {
            BoxData::Mdia(x) => Ok(x),
            _ => Err(Error::BoxNotFound),
        }
    }

    /// The `minf` payload, or `BoxNotFound` for a box of another kind.
    pub fn as_minf(&self) -> (r: Result<&MinfBox, Error>)
        ensures
            match self {
                BoxData::Minf(x) => r == Ok::<&MinfBox, Error>(x),
                _ => r == Err::<&MinfBox, Error>(Error::BoxNotFound),
            },
    {
        match self {
            BoxData::Minf(x) => Ok(x),
            _ => Err(Error::BoxNotFound),
        }
    }

    /// The `stbl` payload, or `BoxNotFound` for a box of another kind.
    pub fn as_stbl(&self) -> (r: Result<&StblBox, Error>)
        ensures
            match self {
                BoxData::Stbl(x) => r == Ok::<&StblBox, Error>(x),
                _ => r == Err::<&StblBox, Error>(Error::BoxNotFound),
            },
    {
        match self {
            BoxData::Stbl(x) => Ok(x),
            _ => Err(Error::BoxNotFound),
        }
    }

    /// The `dinf` payload, or `BoxNotFound` for a box of another kind.
    pub fn as_dinf(&self) -> (r: Result<&DinfBox, Error>)
        ensures
            match self {
                BoxData::Dinf(x) => r == Ok::<&DinfBox, Error>(x),
                _ => r == Err::<&DinfBox, Error>(Error::BoxNotFound),
            },
    {
        match self {
            BoxData::Dinf(x) => Ok(x),
            _ => Err(Error::BoxNotFound),
        }
    }

    /// The `mvhd` payload, or `BoxNotFound` for a box of another kind.
    pub fn as_mvhd(&self) -> (r: Result<&MvhdBox, Error>)
        ensures
            match self {
                BoxData::Mvhd(x) => r == Ok::<&MvhdBox, Error>(x),
                _ => r == Err::<&MvhdBox, Error>(Error::BoxNotFound),
            },
    {
        match self {
            BoxData::Mvhd(x) => Ok(x),
            _ => Err(Error::BoxNotFound),
        }
    }

    /// The `tkhd` payload, or `BoxNotFound` for a box of another kind.
    pub fn as_tkhd(&self) -> (r: Result<&TkhdBox, Error>)
        ensures
            match self {
                BoxData::Tkhd(x) => r == Ok::<&TkhdBox, Error>(x),
                _ => r == Err::<&TkhdBox, Error>(Error::BoxNotFound),
            },
    {
        match self {
            BoxData::Tkhd(x) => Ok(x),
            _ => Err(Error::BoxNotFound),
        }
    }

    /// The `mdhd` payload, or `BoxNotFound` for a box of another kind.
    pub fn as_mdhd(&self) -> (r: Result<&MdhdBox, Error>)
        ensures
            match self {
                BoxData::Mdhd(x) => r == Ok::<&MdhdBox, Error>(x),
                _ => r == Err::<&MdhdBox, Error>(Error::BoxNotFound),
            },
    {
        match self {
            BoxData::Mdhd(x) => Ok(x),
            _ => Err(Error::BoxNotFound),
        }
    }

    /// The `hdlr` payload, or `BoxNotFound` for a box of another kind.
    pub fn as_hdlr(&self) -> (r: Result<&HdlrBox, Error>)
        ensures
            match self {
                BoxData::Hdlr(x) => r == Ok::<&HdlrBox, Error>(x),
                _ => r == Err::<&HdlrBox, Error>(Error::BoxNotFound),
            },
    {
        match self {
            BoxData::Hdlr(x) => Ok(x),
            _ => Err(Error::BoxNotFound),
        }
    }

    /// The `vmhd` payload, or `BoxNotFound` for a box of another kind.
    pub fn as_vmhd(&self) -> (r: Result<&VmhdBox, Error>)
        ensures
            match self {
                BoxData::Vmhd(x) => r == Ok::<&VmhdBox, Error>(x),
                _ => r == Err::<&VmhdBox, Error>(Error::BoxNotFound),
            },
    {
        match self {
            BoxData::Vmhd(x) => Ok(x),
            _ => Err(Error::BoxNotFound),
        }
    }

    /// The `smhd` payload, or `BoxNotFound` for a box of another kind.
    pub fn as_smhd(&self) -> (r: Result<&SmhdBox, Error>)
        ensures
            match self {
                BoxData::Smhd(x) => r == Ok::<&SmhdBox, Error>(x),
                _ => r == Err::<&SmhdBox, Error>(Error::BoxNotFound),
            },
    {
        match self {
            BoxData::Smhd(x) => Ok(x),
            _ => Err(Error::BoxNotFound),
        }
    }

    /// The `dref` payload, or `BoxNotFound` for a box of another kind.
    pub fn as_dref(&self) -> (r: Result<&DrefBox, Error>)
        ensures
            match self {
                BoxData::Dref(x) => r == Ok::<&DrefBox, Error>(x),
                _ => r == Err::<&DrefBox, Error>(Error::BoxNotFound),
            },
    {
        match self {
            BoxData::Dref(x) => Ok(x),
            _ => Err(Error::BoxNotFound),
        }
    }

    /// The `url` payload, or `BoxNotFound` for a box of another kind.
    pub fn as_url(&self) -> (r: Result<&UrlBox, Error>)
        ensures
            match self {
                BoxData::Url(x) => r == Ok::<&UrlBox, Error>(x),
                _ => r == Err::<&UrlBox, Error>(Error::BoxNotFound),
            },
    {
        match self {
            BoxData::Url(x) => Ok(x),
            _ => Err(Error::BoxNotFound),
        }
    }

    /// The `stsd` payload, or `BoxNotFound` for a box of another kind.
    pub fn as_stsd(&self) -> (r: Result<&StsdBox, Error>)
        ensures
            match self {
                BoxData::Stsd(x) => r == Ok::<&StsdBox, Error>(x),
                _ => r == Err::<&StsdBox, Error>(Error::BoxNotFound),
            },
    {
        match self {
            BoxData::Stsd(x) => Ok(x),
            _ => Err(Error::BoxNotFound),
        }
    }

    /// The `avc1` payload, or `BoxNotFound` for a box of another kind.
    pub fn as_avc1(&self) -> (r: Result<&Avc1Box, Error>)
        ensures
            match self {
                BoxData::Avc1(x) => r == Ok::<&Avc1Box, Error>(x),
                _ => r == Err::<&Avc1Box, Error>(Error::BoxNotFound),
            },
    {
        match self {
            BoxData::Avc1(x) => Ok(x),
            _ => Err(Error::BoxNotFound),
        }
    }

    /// The `avcc` payload, or `BoxNotFound` for a box of another kind.
    pub fn as_avcc(&self) -> (r: Result<&AvcCBox, Error>)
        ensures
            match self {
                BoxData::AvcC(x) => r == Ok::<&AvcCBox, Error>(x),
                _ => r == Err::<&AvcCBox, Error>(Error::BoxNotFound),
            },
    {
        match self {
            BoxData::AvcC(x) => Ok(x),
            _ => Err(Error::BoxNotFound),
        }
    }

    /// The `pasp` payload, or `BoxNotFound` for a box of another kind.
    pub fn as_pasp(&self) -> (r: Result<&PaspBox, Error>)
        ensures
            match self {
                BoxData::Pasp(x) => r == Ok::<&PaspBox, Error>(x),
                _ => r == Err::<&PaspBox, Error>(Error::BoxNotFound),
            },
    {
        match self {
            BoxData::Pasp(x) => Ok(x),
            _ => Err(Error::BoxNotFound),
        }
    }

    /// The `stts` payload, or `BoxNotFound` for a box of another kind.
    pub fn as_stts(&self) -> (r: Result<&SttsBox, Error>)
        ensures
            match self {
                BoxData::Stts(x) => r == Ok::<&SttsBox, Error>(x),
                _ => r == Err::<&SttsBox, Error>(Error::BoxNotFound),
            },
    {
        match self {
            BoxData::Stts(x) => Ok(x),
            _ => Err(Error::BoxNotFound),
        }
    }

    /// The `ctts` payload, or `BoxNotFound` for a box of another kind.
    pub fn as_ctts(&self) -> (r: Result<&CttsBox, Error>)
        ensures
            match self {
                BoxData::Ctts(x) => r == Ok::<&CttsBox, Error>(x),
                _ => r == Err::<&CttsBox, Error>(Error::BoxNotFound),
            },
    {
        match self {
            BoxData::Ctts(x) => Ok(x),
            _ => Err(Error::BoxNotFound),
        }
    }

    /// The `stss` payload, or `BoxNotFound` for a box of another kind.
    pub fn as_stss(&self) -> (r: Result<&StssBox, Error>)
        ensures
            match self {
                BoxData::Stss(x) => r == Ok::<&StssBox, Error>(x),
                _ => r == Err::<&StssBox, Error>(Error::BoxNotFound),
            },
    {
        match self {
            BoxData::Stss(x) => Ok(x),
            _ => Err(Error::BoxNotFound),
        }
    }

    /// The `stsc` payload, or `BoxNotFound` for a box of another kind.
    pub fn as_stsc(&self) -> (r: Result<&StscBox, Error>)
        ensures
            match self {
                BoxData::Stsc(x) => r == Ok::<&StscBox, Error>(x),
                _ => r == Err::<&StscBox, Error>(Error::BoxNotFound),
            },
    {
        match self {
            BoxData::Stsc(x) => Ok(x),
            _ => Err(Error::BoxNotFound),
        }
    }

    /// The `stsz` payload, or `BoxNotFound` for a box of another kind.
    pub fn as_stsz(&self) -> (r: Result<&StszBox, Error>)
        ensures
            match self {
                BoxData::Stsz(x) => r == Ok::<&StszBox, Error>(x),
                _ => r == Err::<&StszBox, Error>(Error::BoxNotFound),
            },
    {
        match self {
            BoxData::Stsz(x) => Ok(x),
            _ => Err(Error::BoxNotFound),
        }
    }

    /// The `stco` payload, or `BoxNotFound` for a box of another kind.
    pub fn as_stco(&self) -> (r: Result<&StcoBox, Error>)
        ensures
            match self {
                BoxData::Stco(x) => r == Ok::<&StcoBox, Error>(x),
                _ => r == Err::<&StcoBox, Error>(Error::BoxNotFound),
            },
    {
        match self {
            BoxData::Stco(x) => Ok(x),
            _ => Err(Error::BoxNotFound),
        }
    }

}



/// A box: its header and its decoded payload.
#[derive(Clone, Debug)]
pub struct Mp4Box {
    pub header: BoxHeader,
    pub data: BoxData,
}

/// A decoded box and the boxes nested in it, in stream order.
#[derive(Debug)]
pub struct Mp4BoxTree {
    pub node: Mp4Box,
    pub children: Vec<Mp4BoxTree>,
}

} // verus!
