//! Boxes that carry no fields of their own: their bytes after the header
//! are their children.
use crate::boxes::{Ibox, ReadBox};
use crate::wire::Error;
use crate::header::BoxHeader;
use crate::registry::BoxType;
use vstd::prelude::*;

verus! {

/// `phtm`: the synthetic root that wraps a whole stream.
#[derive(Clone, Copy, Debug, PartialEq, Eq)]
pub struct PhtmBox;

impl Ibox for PhtmBox {
    open spec fn kind() -> BoxType {
        BoxType::Phtm
    }

    open spec fn inv(&self) -> bool {
        true
    }

    open spec fn spec_header_size(&self) -> nat {
        8
    }

    open spec fn spec_data_size(&self) -> nat {
        0
    }

    fn typ(&self) -> (r: BoxType) {
        BoxType::Phtm
    }

    fn header_size(&self) -> (r: u64) {
        8
    }

    fn data_size(&self) -> (r: u64) {
        0
    }
}

impl ReadBox for PhtmBox {
    open spec fn outcome(b: Seq<u8>, pos: int, h: BoxHeader) -> Result<nat, Error> {
        Ok(8)
    }

    open spec fn decodes(b: Seq<u8>, pos: int, h: BoxHeader, x: Self) -> bool {
        true
    }

    fn read(b: &[u8], pos: usize, h: &BoxHeader) -> (r: Result<Self, Error>) {
        Ok(PhtmBox)
    }
}

/// `moov`: the movie container.
#[derive(Clone, Copy, Debug, PartialEq, Eq)]
pub struct MoovBox;

impl Ibox for MoovBox {
    open spec fn kind() -> BoxType {
        BoxType::Moov
    }

    open spec fn inv(&self) -> bool {
        true
    }

    open spec fn spec_header_size(&self) -> nat {
        8
    }

    open spec fn spec_data_size(&self) -> nat {
        0
    }

    fn typ(&self) -> (r: BoxType) {
        BoxType::Moov
    }

    fn header_size(&self) -> (r: u64) {
        8
    }

    fn data_size(&self) -> (r: u64) {
        0
    }
}

impl ReadBox for MoovBox {
    open spec fn outcome(b: Seq<u8>, pos: int, h: BoxHeader) -> Result<nat, Error> {
        Ok(8)
    }

    open spec fn decodes(b: Seq<u8>, pos: int, h: BoxHeader, x: Self) -> bool {
        true
    }

    fn read(b: &[u8], pos: usize, h: &BoxHeader) -> (r: Result<Self, Error>) {
        Ok(MoovBox)
    }
}

/// `trak`: a track container.
#[derive(Clone, Copy, Debug, PartialEq, Eq)]
pub struct TrakBox;

impl Ibox for TrakBox {
    open spec fn kind() -> BoxType {
        BoxType::Trak
    }

    open spec fn inv(&self) -> bool {
        true
    }

    open spec fn spec_header_size(&self) -> nat {
        8
    }

    open spec fn spec_data_size(&self) -> nat {
        0
    }

    fn typ(&self) -> (r: BoxType) {
        BoxType::Trak
    }

    fn header_size(&self) -> (r: u64) {
        8
    }

    fn data_size(&self) -> (r: u64) {
        0
    }
}

impl ReadBox for TrakBox {
    open spec fn outcome(b: Seq<u8>, pos: int, h: BoxHeader) -> Result<nat, Error> {
        Ok(8)
    }

    open spec fn decodes(b: Seq<u8>, pos: int, h: BoxHeader, x: Self) -> bool {
        true
    }

    fn read(b: &[u8], pos: usize, h: &BoxHeader) -> (r: Result<Self, Error>) {
        Ok(TrakBox)
    }
}

/// `edts`: the edit container.
#[derive(Clone, Copy, Debug, PartialEq, Eq)]
pub struct EdtsBox;

impl Ibox for EdtsBox {
    open spec fn kind() -> BoxType {
        BoxType::Edts
    }

    open spec fn inv(&self) -> bool {
        true
    }

    open spec fn spec_header_size(&self) -> nat {
        8
    }

    open spec fn spec_data_size(&self) -> nat {
        0
    }

    fn typ(&self) -> (r: BoxType) {
        BoxType::Edts
    }

    fn header_size(&self) -> (r: u64) {
        8
    }

    fn data_size(&self) -> (r: u64) {
        0
    }
}

impl ReadBox for EdtsBox {
    open spec fn outcome(b: Seq<u8>, pos: int, h: BoxHeader) -> Result<nat, Error> {
        Ok(8)
    }

    open spec fn decodes(b: Seq<u8>, pos: int, h: BoxHeader, x: Self) -> bool {
        true
    }

    fn read(b: &[u8], pos: usize, h: &BoxHeader) -> (r: Result<Self, Error>) {
        Ok(EdtsBox)
    }
}

/// `mdia`: the media container.
#[derive(Clone, Copy, Debug, PartialEq, Eq)]
pub struct MdiaBox;

impl Ibox for MdiaBox {
    open spec fn kind() -> BoxType {
        BoxType::Mdia
    }

    open spec fn inv(&self) -> bool {
        true
    }

    open spec fn spec_header_size(&self) -> nat {
        8
    }

    open spec fn spec_data_size(&self) -> nat {
        0
    }

    fn typ(&self) -> (r: BoxType) {
        BoxType::Mdia
    }

    fn header_size(&self) -> (r: u64) {
        8
    }

    fn data_size(&self) -> (r: u64) {
        0
    }
}

impl ReadBox for MdiaBox {
    open spec fn outcome(b: Seq<u8>, pos: int, h: BoxHeader) -> Result<nat, Error> {
        Ok(8)
    }

    open spec fn decodes(b: Seq<u8>, pos: int, h: BoxHeader, x: Self) -> bool {
        true
    }

    fn read(b: &[u8], pos: usize, h: &BoxHeader) -> (r: Result<Self, Error>) {
        Ok(MdiaBox)
    }
}

/// `minf`: the media information container.
#[derive(Clone, Copy, Debug, PartialEq, Eq)]
pub struct MinfBox;

impl Ibox for MinfBox {
    open spec fn kind() -> BoxType {
        BoxType::Minf
    }

    open spec fn inv(&self) -> bool {
        true
    }

    open spec fn spec_header_size(&self) -> nat {
        8
    }

    open spec fn spec_data_size(&self) -> nat {
        0
    }

    fn typ(&self) -> (r: BoxType) {
        BoxType::Minf
    }

    fn header_size(&self) -> (r: u64) {
        8
    }

    fn data_size(&self) -> (r: u64) {
        0
    }
}

impl ReadBox for MinfBox {
    open spec fn outcome(b: Seq<u8>, pos: int, h: BoxHeader) -> Result<nat, Error> {
        Ok(8)
    }

    open spec fn decodes(b: Seq<u8>, pos: int, h: BoxHeader, x: Self) -> bool {
        true
    }

    fn read(b: &[u8], pos: usize, h: &BoxHeader) -> (r: Result<Self, Error>) {
        Ok(MinfBox)
    }
}

/// `stbl`: the sample table container.
#[derive(Clone, Copy, Debug, PartialEq, Eq)]
pub struct StblBox;

impl Ibox for StblBox {
    open spec fn kind() -> BoxType {
        BoxType::Stbl
    }

    open spec fn inv(&self) -> bool {
        true
    }

    open spec fn spec_header_size(&self) -> nat {
        8
    }

    open spec fn spec_data_size(&self) -> nat {
        0
    }

    fn typ(&self) -> (r: BoxType) {
        BoxType::Stbl
    }

    fn header_size(&self) -> (r: u64) {
        8
    }

    fn data_size(&self) -> (r: u64) {
        0
    }
}

impl ReadBox for StblBox {
    open spec fn outcome(b: Seq<u8>, pos: int, h: BoxHeader) -> Result<nat, Error> {
        Ok(8)
    }

    open spec fn decodes(b: Seq<u8>, pos: int, h: BoxHeader, x: Self) -> bool {
        true
    }

    fn read(b: &[u8], pos: usize, h: &BoxHeader) -> (r: Result<Self, Error>) {
        Ok(StblBox)
    }
}

/// `dinf`: the data information container.
#[derive(Clone, Copy, Debug, PartialEq, Eq)]
pub struct DinfBox;

impl Ibox for DinfBox {
    open spec fn kind() -> BoxType {
        BoxType::Dinf
    }

    open spec fn inv(&self) -> bool {
        true
    }

    open spec fn spec_header_size(&self) -> nat {
        8
    }

    open spec fn spec_data_size(&self) -> nat {
        0
    }

    fn typ(&self) -> (r: BoxType) {
        BoxType::Dinf
    }

    fn header_size(&self) -> (r: u64) {
        8
    }

    fn data_size(&self) -> (r: u64) {
        0
    }
}

impl ReadBox for DinfBox {
    open spec fn outcome(b: Seq<u8>, pos: int, h: BoxHeader) -> Result<nat, Error> {
        Ok(8)
    }

    open spec fn decodes(b: Seq<u8>, pos: int, h: BoxHeader, x: Self) -> bool {
        true
    }

    fn read(b: &[u8], pos: usize, h: &BoxHeader) -> (r: Result<Self, Error>) {
        Ok(DinfBox)
    }
}

} // verus!
