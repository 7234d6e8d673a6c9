use crate::bytes::{be32, be32_at, push_u32, read_u32_at};
use vstd::prelude::*;

verus! {

/// Why a record could not be decoded.
#[derive(Debug, Clone, Copy, PartialEq, Eq, Structural)]
pub enum Error {
    /// The bytes do not have the layout that the record requires.
    InvalidData,
    /// The data ends before the record does.
    UnexpectedEof,
}

/// The length of a box header: a 32-bit size, then a 32-bit type tag.
pub const HEADER_SIZE: u64 = 8;

/// The tag `hvc1`.
pub const HVC1_TAG: u32 = 0x6876_6331;

/// The tag `hvcC`.
pub const HVCC_TAG: u32 = 0x6876_6343;

/// The kind of a box, told by its four-character tag.
#[derive(Debug, Clone, Copy, PartialEq, Eq, Structural)]
pub enum BoxType {
    Hvc1Box,
    HvcCBox,
    Other(u32),
}

impl BoxType {
    pub open spec fn spec_from_tag(tag: u32) -> BoxType {
        if tag == HVC1_TAG {
            BoxType::Hvc1Box
        } else if tag == HVCC_TAG {
            BoxType::HvcCBox
        } else {
            BoxType::Other(tag)
        }
    }

    pub open spec fn spec_tag(self) -> u32 {
        match self {
            BoxType::Hvc1Box => HVC1_TAG,
            BoxType::HvcCBox => HVCC_TAG,
            BoxType::Other(t) => t,
        }
    }

    /// The kind that `tag` names.
    pub fn from_tag(tag: u32) -> (r: BoxType)
        ensures
            r == BoxType::spec_from_tag(tag),
    {
        if tag == HVC1_TAG {
            BoxType::Hvc1Box
        } else if tag == HVCC_TAG {
            BoxType::HvcCBox
        } else {
            BoxType::Other(tag)
        }
    }

    /// The four-character tag of the kind.
    pub fn tag(&self) -> (r: u32)
        ensures
            r == self.spec_tag(),
    {
        match self {
            BoxType::Hvc1Box => HVC1_TAG,
            BoxType::HvcCBox => HVCC_TAG,
            BoxType::Other(t) => *t,
        }
    }
}

/// The wire form of a header that declares `size` bytes of kind `tag`.
pub open spec fn header_bytes(size: u32, tag: u32) -> Seq<u8> {
    be32(size) + be32(tag)
}

/// The leading part of a box: its kind and its declared size, header included.
#[derive(Debug, Clone, Copy, PartialEq, Eq, Structural)]
pub struct BoxHeader {
    pub name: BoxType,
    pub size: u64,
}

impl BoxHeader {
    pub fn new(name: BoxType, size: u64) -> (r: BoxHeader)
        ensures
            r == (BoxHeader { name, size }),
    {
        BoxHeader { name, size }
    }

    /// Reads the header at `pos`, or `UnexpectedEof` where fewer than eight
    /// bytes are left.
    pub fn read(data: &[u8], pos: usize) -> (r: Result<BoxHeader, Error>)
        requires
            pos <= data@.len(),
        ensures
            pos + HEADER_SIZE > data@.len() ==> r == Err::<BoxHeader, Error>(Error::UnexpectedEof),
            pos + HEADER_SIZE <= data@.len() ==> r == Ok::<BoxHeader, Error>(
                BoxHeader {
                    name: BoxType::spec_from_tag(be32_at(data@, pos + 4)),
                    size: be32_at(data@, pos as int) as u64,
                },
            ),
    {
        if data.len() - pos < 8 {
            return Err(Error::UnexpectedEof);
        }
        let size = read_u32_at(data, pos);
        let tag = read_u32_at(data, pos + 4);
        Ok(BoxHeader { name: BoxType::from_tag(tag), size: size as u64 })
    }

    /// Appends the header's wire form.
    pub fn write(&self, out: &mut Vec<u8>)
        requires
            self.size <= u32::MAX,
        ensures
            final(out)@ == old(out)@ + header_bytes(self.size as u32, self.name.spec_tag()),
    {
        push_u32(out, self.size as u32);
        push_u32(out, self.name.tag());
        assert(final(out)@ =~= old(out)@ + header_bytes(self.size as u32, self.name.spec_tag()));
    }
}

} // verus!
