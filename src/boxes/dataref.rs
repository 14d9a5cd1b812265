//! `dref` and `url `: the data references of a track.
use crate::boxes::media::readable;
use crate::boxes::{Ibox, ReadBox};
use crate::wire::{be_at, bytes_at, fits, lemma_utf8_bytes, u32_at, utf8_string, Error, Reason};
use crate::header::{read_box_header_ext, BoxHeader};
use crate::registry::BoxType;
use vstd::prelude::*;
use vstd::utf8::{encode_utf8, is_ascii_chars, is_ascii_chars_encode_utf8, valid_utf8};

verus! {

#[derive(Clone, Copy, Debug, PartialEq, Eq)]
pub struct DrefBox {
    pub version: u8,
    pub flags: u32,
    pub entry_count: u32,
}

impl Ibox for DrefBox {
    open spec fn kind() -> BoxType {
        BoxType::Dref
    }

    open spec fn inv(&self) -> bool {
        true
    }

    open spec fn spec_header_size(&self) -> nat {
        12
    }

    open spec fn spec_data_size(&self) -> nat {
        4
    }

    fn typ(&self) -> (r: BoxType) {
        BoxType::Dref
    }

    fn header_size(&self) -> (r: u64) {
        12
    }

    fn data_size(&self) -> (r: u64) {
        4
    }
}

impl ReadBox for DrefBox {
    open spec fn outcome(b: Seq<u8>, pos: int, h: BoxHeader) -> Result<nat, Error> {
        if fits(b, pos, 8) {
            Ok(16)
        } else {
            Err(Error::UnexpectedEof)
        }
    }

    open spec fn decodes(b: Seq<u8>, pos: int, h: BoxHeader, x: Self) -> bool {
        &&& x.version == be_at(b, pos, 1)
        &&& x.flags == be_at(b, pos + 1, 3)
        &&& x.entry_count == be_at(b, pos + 4, 4)
    }

    fn read(b: &[u8], pos: usize, h: &BoxHeader) -> (r: Result<Self, Error>) {
        let (version, flags) = read_box_header_ext(b, pos)?;
        if b.len() - pos < 8 {
            return Err(Error::UnexpectedEof);
        }
        Ok(DrefBox { version, flags, entry_count: u32_at(b, pos + 4) })
    }
}

/// The location of a `url ` box whose flags say the data is in this file.
pub open spec fn local_location() -> Seq<char> {
    seq!['l', 'o', 'c', 'a', 'l', ' ', 't', 'o', ' ', 'f', 'i', 'l', 'e']
}

/// The number of location bytes a `url ` box with header `h` holds.
pub open spec fn url_location_len(h: BoxHeader) -> int {
    h.size - 13
}

/// The location bytes of a `url ` box whose data starts at `pos`.
pub open spec fn url_location_bytes(b: Seq<u8>, pos: int, h: BoxHeader) -> Seq<u8> {
    if url_location_len(h) == 0 {
        seq![]
    } else {
        b.subrange(pos + 4, pos + 4 + url_location_len(h))
    }
}

#[derive(Clone, Debug, PartialEq, Eq)]
pub struct UrlBox {
    pub version: u8,
    pub flags: u32,
    pub location: String,
}

impl Ibox for UrlBox {
    open spec fn kind() -> BoxType {
        BoxType::Url
    }

    open spec fn inv(&self) -> bool {
        encode_utf8(self.location@).len() <= usize::MAX && encode_utf8(self.location@).len() + 13 <= u64::MAX
    }

    open spec fn spec_header_size(&self) -> nat {
        12
    }

    open spec fn spec_data_size(&self) -> nat {
        if self.flags == 1 {
            0
        } else {
            encode_utf8(self.location@).len() + 1
        }
    }

    fn typ(&self) -> (r: BoxType) {
        BoxType::Url
    }

    fn header_size(&self) -> (r: u64) {
        12
    }

    fn data_size(&self) -> (r: u64) {
        if self.flags == 0x1 {
            0
        } else {
            self.location.as_str().len() as u64 + 1
        }
    }
}

impl ReadBox for UrlBox {
    open spec fn outcome(b: Seq<u8>, pos: int, h: BoxHeader) -> Result<nat, Error> {
        let n = url_location_len(h);
        if !fits(b, pos, 4) {
            Err(Error::UnexpectedEof)
        } else if be_at(b, pos + 1, 3) == 1 {
            Ok(12)
        } else if n < 0 {
            Err(Error::InvalidData(Reason::UrlSizeTooSmall))
        } else if !readable(b, pos + 4, n) {
            Err(Error::UnexpectedEof)
        } else if valid_utf8(url_location_bytes(b, pos, h)) {
            Ok((13 + n) as nat)
        } else {
            Ok(13)
        }
    }

    open spec fn decodes(b: Seq<u8>, pos: int, h: BoxHeader, x: Self) -> bool {
        let loc = url_location_bytes(b, pos, h);
        &&& x.version == be_at(b, pos, 1)
        &&& x.flags == be_at(b, pos + 1, 3)
        &&& if x.flags == 1 {
            x.location@ == local_location()
        } else if valid_utf8(loc) {
            encode_utf8(x.location@) == loc
        } else {
            x.location@ == Seq::<char>::empty()
        }
    }

    fn read(b: &[u8], pos: usize, h: &BoxHeader) -> (r: Result<Self, Error>) {
        let (version, flags) = read_box_header_ext(b, pos)?;
        let _len = b.len();
        let location = if flags == 0x1 {
            let t = "local to file".to_owned();
            proof {
                reveal_strlit("local to file");
                assert(t@ =~= local_location());
                assert(is_ascii_chars(local_location()));
                is_ascii_chars_encode_utf8(local_location());
            }
            t
        } else {
            if h.size < 13 {
                return Err(Error::InvalidData(Reason::UrlSizeTooSmall));
            }
            let n = h.size - 13;
            let buf: Vec<u8> = if n == 0 {
                Vec::new()
            } else if b.len() - pos < 4 || ((b.len() - pos - 4) as u64) < n {
                return Err(Error::UnexpectedEof);
            } else {
                bytes_at(b, pos + 4, n as usize)
            };
            let ghost bytes = buf@;
            assert(bytes =~= url_location_bytes(b@, pos as int, *h));
            match utf8_string(buf) {
                Some(t) => {
                    proof {
                        lemma_utf8_bytes(bytes);
                    }
                    t
                },
                None => {
                    let t = String::new();
                    proof {
                        assert(t@ =~= Seq::<char>::empty());
                        assert(encode_utf8(Seq::<char>::empty()) =~= Seq::<u8>::empty());
                    }
                    t
                },
            }
        };
        Ok(UrlBox { version, flags, location })
    }
}

} // verus!
