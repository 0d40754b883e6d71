//! The versioned record kept in the header of a disk file.
//!
//! A record is stored as one tag byte followed by the payload that the tag
//! announces. Tag 0 is followed by eight bytes: the creation time of the
//! file, in seconds since the Unix epoch, little-endian.
use vstd::prelude::*;
use vstd::bytes::{
    lemma_auto_spec_u64_to_from_le_bytes, spec_u64_from_le_bytes, spec_u64_to_le_bytes,
    u64_from_le_bytes, u64_to_le_bytes,
};
use vstd::std_specs::convert::TryFromSpecImpl;
use crate::cursor::{Cursor, CursorError};
use crate::U64_SIZE;

verus! {

/// The first version of the record.
#[derive(Debug, Clone, Copy, PartialEq, Eq, Structural)]
pub struct DiskMetadataV1 {
    /// When the file was first set up, in seconds since the Unix epoch.
    pub created_at: u64,
}

/// A record of any known version.
#[derive(Debug, Clone, Copy, PartialEq, Eq, Structural)]
pub enum DiskMetadata {
    V1(DiskMetadataV1),
}

/// Why a run of bytes is no record.
#[derive(Debug, Clone, Copy, PartialEq, Eq, Structural)]
pub enum DiskMetadataError {
    /// The bytes end before the tag, or before the end of the payload that
    /// the tag announces.
    Truncated(CursorError),
    /// The tag is that of no known version.
    UnknownVersion(u8),
}

/// The tag of the first version.
pub const V1_TAG: u8 = 0;

impl DiskMetadata {
    /// The byte that announces the version.
    pub open spec fn tag(&self) -> u8 {
        match *self {
            DiskMetadata::V1(_) => V1_TAG,
        }
    }

    /// What follows the tag.
    pub open spec fn payload(&self) -> Seq<u8> {
        match *self {
            DiskMetadata::V1(data) => spec_u64_to_le_bytes(data.created_at),
        }
    }

    /// The stored form: the tag, then the payload, nothing between or after.
    pub open spec fn encoding(&self) -> Seq<u8> {
        seq![self.tag()] + self.payload()
    }

    /// The record that a run of bytes starts with. Bytes after the payload
    /// are not looked at.
    pub open spec fn decode(bytes: Seq<u8>) -> Result<DiskMetadata, DiskMetadataError> {
        if bytes.len() < 1 {
            Err(DiskMetadataError::Truncated(CursorError::InvalidRange))
        } else if bytes[0] != V1_TAG {
            Err(DiskMetadataError::UnknownVersion(bytes[0]))
        } else if bytes.len() < 1 + U64_SIZE {
            Err(DiskMetadataError::Truncated(CursorError::InvalidRange))
        } else {
            Ok(
                DiskMetadata::V1(
                    DiskMetadataV1 {
                        created_at: spec_u64_from_le_bytes(bytes.subrange(1, 1 + U64_SIZE)),
                    },
                ),
            )
        }
    }

    /// The tag, as the one byte it is stored in.
    pub fn get_le_identifier(&self) -> (id: [u8; 1])
        ensures
            id@ == seq![self.tag()],
    {
        match self {
            DiskMetadata::V1(_) => [V1_TAG],
        }
    }

    /// The stored form of the record.
    pub fn to_vec(&self) -> (bytes: Vec<u8>)
        ensures
            bytes@ == self.encoding(),
    {
        let mut vec: Vec<u8> = Vec::new();

        match self {
            DiskMetadata::V1(data) => {
                let id = self.get_le_identifier();
                let created_at = u64_to_le_bytes(data.created_at);
                vec.extend_from_slice(id.as_slice());
                vec.extend_from_slice(created_at.as_slice());
            },
        }
        assert(vec@ =~= self.encoding());

        vec
    }

    /// The number of bytes of the payload; the tag is not counted.
    pub fn size(&self) -> (n: usize)
        ensures
            n == self.payload().len(),
            n + 1 == self.encoding().len(),
    {
        proof {
            lemma_auto_spec_u64_to_from_le_bytes();
        }
        match self {
            DiskMetadata::V1(_) => U64_SIZE,
        }
    }

    /// Reads the record that `bytes` starts with.
    pub fn from_bytes(bytes: &[u8]) -> (parsed: Result<DiskMetadata, DiskMetadataError>)
        ensures
            parsed == Self::decode(bytes@),
    {
        let mut cursor = Cursor::new(bytes);
        let le_identifier = match cursor.consume(1) {
            Ok(found) => found,
            Err(e) => {
                return Err(DiskMetadataError::Truncated(e));
            },
        };
        let tag = le_identifier[0];
        if tag == V1_TAG {
            let created_at_le_bytes = match cursor.consume(U64_SIZE) {
                Ok(found) => found,
                Err(e) => {
                    return Err(DiskMetadataError::Truncated(e));
                },
            };
            let created_at = u64_from_le_bytes(created_at_le_bytes);
            Ok(DiskMetadata::V1(DiskMetadataV1 { created_at }))
        } else {
            Err(DiskMetadataError::UnknownVersion(tag))
        }
    }

    /// Whether this is a record of the first version.
    pub fn is_v1(&self) -> (yes: bool)
        ensures
            yes == (*self is V1),
    {
        match self {
            DiskMetadata::V1(_) => true,
        }
    }

    /// The record's content, if it is of the first version.
    pub fn as_v1(&self) -> (inner: Option<&DiskMetadataV1>)
        ensures
            inner == Some(&self->V1_0),
    {
        match self {
            DiskMetadata::V1(data) => Some(data),
        }
    }

    /// The record's content, if it is of the first version; the record
    /// itself otherwise.
    pub fn into_v1(self) -> (inner: Result<DiskMetadataV1, DiskMetadata>)
        ensures
            inner == Ok::<DiskMetadataV1, DiskMetadata>(self->V1_0),
    {
        match self {
            DiskMetadata::V1(data) => Ok(data),
        }
    }
}

impl TryFrom<Vec<u8>> for DiskMetadata {
    type Error = DiskMetadataError;

    fn try_from(value: Vec<u8>) -> (parsed: Result<Self, DiskMetadataError>) {
        DiskMetadata::from_bytes(value.as_slice())
    }
}

impl TryFromSpecImpl<Vec<u8>> for DiskMetadata {
    open spec fn obeys_try_from_spec() -> bool {
        true
    }

    open spec fn try_from_spec(value: Vec<u8>) -> Result<Self, DiskMetadataError> {
        DiskMetadata::decode(value@)
    }
}

/// A stored record is read back as the record it was made from, whatever
/// bytes follow it.
pub proof fn lemma_decode_encoding(metadata: DiskMetadata, rest: Seq<u8>)
    ensures
        DiskMetadata::decode(metadata.encoding() + rest) == Ok::<DiskMetadata, DiskMetadataError>(
            metadata,
        ),
        DiskMetadata::decode(metadata.encoding()) == Ok::<DiskMetadata, DiskMetadataError>(
            metadata,
        ),
        metadata.encoding().len() == 1 + U64_SIZE,
{
    lemma_auto_spec_u64_to_from_le_bytes();
    let stored = metadata.encoding();
    assert(stored.subrange(1, 1 + U64_SIZE) =~= metadata.payload());
    assert((stored + rest).subrange(1, 1 + U64_SIZE) =~= metadata.payload());
}

/// Whether a run of bytes is a record depends on its tag alone and on its
/// having the length that the tag announces: a record of the first version
/// is found exactly where the first byte is its tag and eight more follow.
pub proof fn lemma_decode_by_tag(bytes: Seq<u8>)
    ensures
        DiskMetadata::decode(bytes) is Ok <==> bytes.len() >= 1 + U64_SIZE && bytes[0] == V1_TAG,
        DiskMetadata::decode(bytes) is Ok ==> DiskMetadata::decode(bytes)->Ok_0.encoding()
            == bytes.subrange(0, 1 + U64_SIZE),
{
    lemma_auto_spec_u64_to_from_le_bytes();
    if DiskMetadata::decode(bytes) is Ok {
        let found = DiskMetadata::decode(bytes)->Ok_0;
        let payload = bytes.subrange(1, 1 + U64_SIZE);
        assert(spec_u64_to_le_bytes(spec_u64_from_le_bytes(payload)) == payload);
        assert(found.encoding() =~= bytes.subrange(0, 1 + U64_SIZE));
    }
}

} // verus!
