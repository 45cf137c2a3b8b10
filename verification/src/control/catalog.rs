//! Namespace and secondary-index catalogs.
//!
//! A namespace has one layout: hash for point lookups, ordered for range scans
//! and indexes. The control plane owns index definitions and their lifecycle,
//! never the entries.

use crate::ids::NamespaceId;
use crate::wire::{get_u64, group_fields, lemma_u64_read, put_u64, u64_at, u64_bytes};
use vstd::prelude::*;

verus! {

/// Physical layout of one namespace's keyspace.
#[derive(Debug, Clone, Copy, PartialEq, Eq, Hash, Structural)]
pub enum CatalogLayout {
    /// Hash partitioning for point lookups.
    Hash,
    /// Ordered partitioning for range scans and secondary indexes.
    Ordered,
}

impl CatalogLayout {
    /// The canonical discriminant.
    pub open spec fn byte(self) -> u8 {
        match self {
            CatalogLayout::Hash => 0,
            CatalogLayout::Ordered => 1,
        }
    }

    /// The value with discriminant `byte`, if there is one.
    pub open spec fn of_byte(byte: u8) -> Result<Self, CatalogError> {
        if byte == 0 {
            Ok(CatalogLayout::Hash)
        } else if byte == 1 {
            Ok(CatalogLayout::Ordered)
        } else {
            Err(CatalogError::BadLayout { found: byte })
        }
    }

    /// Encodes the value as its discriminant byte.
    pub fn encode_byte(self) -> (byte: u8)
        ensures
            byte == self.byte(),
            Self::of_byte(byte) == Ok::<_, CatalogError>(self),
    {
        match self {
            CatalogLayout::Hash => 0,
            CatalogLayout::Ordered => 1,
        }
    }

    /// Decodes a discriminant byte.
    pub fn decode_byte(byte: u8) -> (result: Result<Self, CatalogError>)
        ensures
            result == Self::of_byte(byte),
            result matches Ok(value) ==> value.byte() == byte,
            result is Err <==> byte >= 2,
    {
        match byte {
            0 => Ok(CatalogLayout::Hash),
            1 => Ok(CatalogLayout::Ordered),
            _ => Err(CatalogError::BadLayout { found: byte }),
        }
    }
}

/// One registered namespace.
#[derive(Debug, Clone, Copy, PartialEq, Eq, Hash, Structural)]
pub struct NamespaceRecord {
    /// Namespace identity.
    pub id: NamespaceId,
    /// Physical layout.
    pub layout: CatalogLayout,
}

impl NamespaceRecord {
    /// Canonical bytes: identity, layout.
    pub open spec fn encoded(self) -> Seq<u8> {
        u64_bytes(self.id.0) + seq![self.layout.byte()]
    }

    /// The record that `input` spells, or why it spells none.
    pub open spec fn decoded(input: Seq<u8>) -> Result<Self, CatalogError> {
        if input.len() != 9 {
            Err(CatalogError::Truncated)
        } else {
            match CatalogLayout::of_byte(input[8]) {
                Err(error) => Err(error),
                Ok(layout) => Ok(NamespaceRecord { id: NamespaceId(u64_at(input, 0)), layout }),
            }
        }
    }

    /// Encodes the canonical bytes: `id u64, layout u8`.
    pub fn encode_to_vec(&self) -> (out: Vec<u8>)
        ensures
            out@ == self.encoded(),
    {
        let mut out: Vec<u8> = Vec::new();
        put_u64(&mut out, self.id.as_u64());
        out.push(self.layout.encode_byte());
        proof {
            assert(out@ =~= self.encoded());
        }
        out
    }

    /// Decodes exactly one record.
    pub fn decode_exact(input: &[u8]) -> (result: Result<Self, CatalogError>)
        ensures
            result == Self::decoded(input@),
    {
        if input.len() != 9 {
            return Err(CatalogError::Truncated);
        }
        let id: NamespaceId = NamespaceId::from_u64(get_u64(input, 0));
        match CatalogLayout::decode_byte(input[8]) {
            Ok(layout) => Ok(NamespaceRecord { id, layout }),
            Err(error) => Err(error),
        }
    }
}

/// Uniqueness contract of a secondary index.
#[derive(Debug, Clone, Copy, PartialEq, Eq, Hash, Structural)]
pub enum CatalogIndexKind {
    /// Many primaries per term.
    NonUnique,
    /// One primary per term: concurrent claims conflict.
    Unique,
}

impl CatalogIndexKind {
    /// The canonical discriminant.
    pub open spec fn byte(self) -> u8 {
        match self {
            CatalogIndexKind::NonUnique => 0,
            CatalogIndexKind::Unique => 1,
        }
    }

    /// The value with discriminant `byte`, if there is one.
    pub open spec fn of_byte(byte: u8) -> Result<Self, CatalogError> {
        if byte == 0 {
            Ok(CatalogIndexKind::NonUnique)
        } else if byte == 1 {
            Ok(CatalogIndexKind::Unique)
        } else {
            Err(CatalogError::BadIndexKind { found: byte })
        }
    }

    /// Encodes the value as its discriminant byte.
    pub fn encode_byte(self) -> (byte: u8)
        ensures
            byte == self.byte(),
            Self::of_byte(byte) == Ok::<_, CatalogError>(self),
    {
        match self {
            CatalogIndexKind::NonUnique => 0,
            CatalogIndexKind::Unique => 1,
        }
    }

    /// Decodes a discriminant byte.
    pub fn decode_byte(byte: u8) -> (result: Result<Self, CatalogError>)
        ensures
            result == Self::of_byte(byte),
            result matches Ok(value) ==> value.byte() == byte,
            result is Err <==> byte >= 2,
    {
        match byte {
            0 => Ok(CatalogIndexKind::NonUnique),
            1 => Ok(CatalogIndexKind::Unique),
            _ => Err(CatalogError::BadIndexKind { found: byte }),
        }
    }
}

/// Lifecycle state of a secondary index.
#[derive(Debug, Clone, Copy, PartialEq, Eq, Hash, Structural)]
pub enum CatalogIndexState {
    /// Accepts maintenance writes, invisible to queries.
    Building,
    /// Maintained and queryable.
    Ready,
    /// Maintenance stopped, entries being removed.
    Dropping,
}

impl CatalogIndexState {
    /// The canonical discriminant.
    pub open spec fn byte(self) -> u8 {
        match self {
            CatalogIndexState::Building => 0,
            CatalogIndexState::Ready => 1,
            CatalogIndexState::Dropping => 2,
        }
    }

    /// The value with discriminant `byte`, if there is one.
    pub open spec fn of_byte(byte: u8) -> Result<Self, CatalogError> {
        if byte == 0 {
            Ok(CatalogIndexState::Building)
        } else if byte == 1 {
            Ok(CatalogIndexState::Ready)
        } else if byte == 2 {
            Ok(CatalogIndexState::Dropping)
        } else {
            Err(CatalogError::BadIndexState { found: byte })
        }
    }

    /// Encodes the value as its discriminant byte.
    pub fn encode_byte(self) -> (byte: u8)
        ensures
            byte == self.byte(),
            Self::of_byte(byte) == Ok::<_, CatalogError>(self),
    {
        match self {
            CatalogIndexState::Building => 0,
            CatalogIndexState::Ready => 1,
            CatalogIndexState::Dropping => 2,
        }
    }

    /// Decodes a discriminant byte.
    pub fn decode_byte(byte: u8) -> (result: Result<Self, CatalogError>)
        ensures
            result == Self::of_byte(byte),
            result matches Ok(value) ==> value.byte() == byte,
            result is Err <==> byte >= 3,
    {
        match byte {
            0 => Ok(CatalogIndexState::Building),
            1 => Ok(CatalogIndexState::Ready),
            2 => Ok(CatalogIndexState::Dropping),
            _ => Err(CatalogError::BadIndexState { found: byte }),
        }
    }
}

/// One secondary index definition: which primary namespace it feeds off, and
/// how.
#[derive(Debug, Clone, Copy, PartialEq, Eq, Hash, Structural)]
pub struct IndexRecord {
    /// Index identity.
    pub id: u64,
    /// Primary namespace.
    pub primary: NamespaceId,
    /// Uniqueness contract.
    pub kind: CatalogIndexKind,
    /// Lifecycle state.
    pub state: CatalogIndexState,
}

impl IndexRecord {
    /// Canonical bytes: identity, primary namespace, kind, state.
    pub open spec fn encoded(self) -> Seq<u8> {
        u64_bytes(self.id) + u64_bytes(self.primary.0) + seq![self.kind.byte(), self.state.byte()]
    }

    /// The record that `input` spells, or why it spells none.
    pub open spec fn decoded(input: Seq<u8>) -> Result<Self, CatalogError> {
        if input.len() != 18 {
            Err(CatalogError::Truncated)
        } else {
            match CatalogIndexKind::of_byte(input[16]) {
                Err(error) => Err(error),
                Ok(kind) => match CatalogIndexState::of_byte(input[17]) {
                    Err(error) => Err(error),
                    Ok(state) => Ok(
                        IndexRecord {
                            id: u64_at(input, 0),
                            primary: NamespaceId(u64_at(input, 8)),
                            kind,
                            state,
                        },
                    ),
                },
            }
        }
    }

    /// Encodes the canonical bytes: `id u64, primary u64, kind u8, state u8`.
    pub fn encode_to_vec(&self) -> (out: Vec<u8>)
        ensures
            out@ == self.encoded(),
    {
        let mut out: Vec<u8> = Vec::new();
        put_u64(&mut out, self.id);
        put_u64(&mut out, self.primary.as_u64());
        out.push(self.kind.encode_byte());
        out.push(self.state.encode_byte());
        proof {
            assert(out@ =~= self.encoded());
        }
        out
    }

    /// Decodes exactly one record.
    pub fn decode_exact(input: &[u8]) -> (result: Result<Self, CatalogError>)
        ensures
            result == Self::decoded(input@),
    {
        if input.len() != 18 {
            return Err(CatalogError::Truncated);
        }
        let id: u64 = get_u64(input, 0);
        let primary: NamespaceId = NamespaceId::from_u64(get_u64(input, 8));
        let kind: CatalogIndexKind = match CatalogIndexKind::decode_byte(input[16]) {
            Ok(kind) => kind,
            Err(error) => return Err(error),
        };
        match CatalogIndexState::decode_byte(input[17]) {
            Ok(state) => Ok(IndexRecord { id, primary, kind, state }),
            Err(error) => Err(error),
        }
    }
}

/// Catalog decode failure.
#[derive(Debug, Clone, Copy, PartialEq, Eq, Structural)]
#[non_exhaustive]
pub enum CatalogError {
    /// Truncated input.
    Truncated,
    /// Unknown layout discriminant.
    BadLayout {
        /// Observed discriminant.
        found: u8,
    },
    /// Unknown index-kind discriminant.
    BadIndexKind {
        /// Observed discriminant.
        found: u8,
    },
    /// Unknown index-state discriminant.
    BadIndexState {
        /// Observed discriminant.
        found: u8,
    },
}

/// A namespace record decodes from its own encoding.
pub proof fn law_namespace_round_trip(record: NamespaceRecord)
    ensures
        NamespaceRecord::decoded(record.encoded()) == Ok::<_, CatalogError>(record),
{
    broadcast use group_fields;

    let bytes = record.encoded();
    assert(bytes.subrange(0, 8) =~= u64_bytes(record.id.0));
    assert(bytes[8] == record.layout.byte());
}

/// An index record decodes from its own encoding.
pub proof fn law_index_round_trip(record: IndexRecord)
    ensures
        IndexRecord::decoded(record.encoded()) == Ok::<_, CatalogError>(record),
{
    broadcast use group_fields;

    let bytes = record.encoded();
    assert(bytes.subrange(0, 8) =~= u64_bytes(record.id));
    assert(bytes.subrange(8, 16) =~= u64_bytes(record.primary.0));
    assert(bytes[16] == record.kind.byte());
    assert(bytes[17] == record.state.byte());
}

/// The images of catalog records hold each part at its own place.
pub proof fn law_catalog_image_layout(namespace: NamespaceRecord, index: IndexRecord)
    ensures
        namespace.encoded().len() == 9,
        u64_at(namespace.encoded(), 0) == namespace.id.0,
        namespace.encoded()[8] == if namespace.layout is Hash {
            0u8
        } else {
            1u8
        },
        index.encoded().len() == 18,
        u64_at(index.encoded(), 0) == index.id,
        u64_at(index.encoded(), 8) == index.primary.0,
        index.encoded()[16] == if index.kind is NonUnique {
            0u8
        } else {
            1u8
        },
        index.state is Building ==> index.encoded()[17] == 0,
        index.state is Ready ==> index.encoded()[17] == 1,
        index.state is Dropping ==> index.encoded()[17] == 2,
{
    broadcast use group_fields;

    assert(namespace.encoded().subrange(0, 8) =~= u64_bytes(namespace.id.0));
    assert(index.encoded().subrange(0, 8) =~= u64_bytes(index.id));
    assert(index.encoded().subrange(8, 16) =~= u64_bytes(index.primary.0));
}

/// Every image of a record is its own: what was decoded encodes to what was read, and no
/// input of another length is taken.
pub proof fn law_catalog_images_are_canonical(input: Seq<u8>)
    ensures
        NamespaceRecord::decoded(input) matches Ok(record) ==> record.encoded() == input,
        IndexRecord::decoded(input) matches Ok(record) ==> record.encoded() == input,
        input.len() != 9 ==> NamespaceRecord::decoded(input) is Err,
        input.len() != 18 ==> IndexRecord::decoded(input) is Err,
{
    broadcast use group_fields;

    if let Ok(record) = NamespaceRecord::decoded(input) {
        lemma_u64_read(input, 0);
        assert(record.encoded() =~= input);
    }
    if let Ok(record) = IndexRecord::decoded(input) {
        lemma_u64_read(input, 0);
        lemma_u64_read(input, 8);
        assert(record.encoded() =~= input);
    }
}

} // verus!
