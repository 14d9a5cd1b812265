//! Decoding of box-structured media containers (ISO base media / MP4 style)
//! into a tree of typed boxes, and a scan over the same structure that a
//! caller can stop early.
use vstd::prelude::*;

pub mod wire;
pub mod types;
pub mod header;
pub mod registry;
pub mod boxes;
pub mod reader;

pub use wire::{Error, Reason};
pub use header::{
    read_box_header, read_box_header_ext, write_box_header, write_box_header_ext, BoxHeader, HEADER_SIZE,
    HEADER_SIZE_LARGE,
};
pub use types::{FixedPointI8, FixedPointU16, FixedPointU8, FourCC};
pub use registry::BoxType;
pub use reader::{read_mp4_box, scan_mp4_box};
pub use boxes::media::RgbColor;
pub use boxes::movie::Matrix;
pub use boxes::sample::NalUnit;
pub use boxes::tables::{CttsEntry, StscEntry, SttsEntry};
pub use boxes::{
    Avc1Box, AvcCBox, BoxData, CttsBox, DinfBox, DrefBox, EdtsBox, FtypBox, HdlrBox, Ibox, MdhdBox, MdiaBox,
    MinfBox, MoovBox, Mp4Box, Mp4BoxTree, MvhdBox, PaspBox, PhtmBox, ReadBox, SmhdBox, StblBox, StcoBox,
    StscBox, StsdBox, StssBox, StszBox, SttsBox, TkhdBox, TrakBox, UrlBox, VmhdBox,
};

verus! {

/// What a scan callback answers for each decoded box.
#[derive(Clone, Copy, Debug, PartialEq, Eq, Structural)]
pub enum Scanning {
    Stop,
    Continue,
}

} // verus!
