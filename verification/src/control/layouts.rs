//! Published redundancy layouts: map keys and opaque records.
//!
//! The control group decides which redundancy generation is published for each
//! asset. It stores layout bytes opaquely: the parsed asset fields ride alongside
//! as a [`LayoutKey`], and the fencing generation rides in the [`LayoutRecord`].

use crate::wire::{
    all_zero, copy_bytes, get_digest, get_u32, get_u64, group_fields, is_zero_digest, len_prefix,
    put_bytes, put_u32, put_u64, u32_at, u32_bytes, u64_at, u64_bytes, view_result, wire_len,
};
use vstd::prelude::*;

verus! {

/// Encoded [`LayoutKey`] length: kind `u8`, domain `u64`, hash `[u8; 32]`.
pub const LAYOUT_KEY_LEN: usize = 41;

/// What the redundancy fabric fixes for the control plane: the asset kinds it
/// knows and the largest layout it encodes.
#[derive(Debug, PartialEq, Eq)]
pub struct FabricVocabulary {
    /// Discriminants of the known asset kinds.
    pub kinds: Vec<u8>,
    /// Most bytes that one encoded layout takes.
    pub max_layout_bytes: usize,
}

impl FabricVocabulary {
    /// Whether `kind` is the discriminant of a known asset kind.
    pub fn knows(&self, kind: u8) -> (known: bool)
        ensures
            known == self.kinds@.contains(kind),
    {
        let mut at: usize = 0;
        while at < self.kinds.len()
            invariant
                at <= self.kinds.len(),
                forall|i: int| 0 <= i < at ==> self.kinds@[i] != kind,
            decreases self.kinds.len() - at,
        {
            if self.kinds[at] == kind {
                return true;
            }
            at = at + 1;
        }
        false
    }
}

/// Identity of one protected asset.
#[derive(Debug, Clone, Copy, PartialEq, Eq, PartialOrd, Ord, Hash)]
pub struct AssetId {
    /// Asset family discriminant.
    pub kind: u8,
    /// Raw security-domain value.
    pub domain: u64,
    /// Content hash; never all zero.
    pub hash: [u8; 32],
}

impl AssetId {
    /// Builds an identity out of a known kind and a nonzero hash.
    pub fn new(vocabulary: &FabricVocabulary, kind: u8, domain: u64, hash: [u8; 32]) -> (result:
        Result<Self, LayoutError>)
        ensures
            result == if !vocabulary.kinds@.contains(kind) {
                Err::<AssetId, _>(LayoutError::BadKind { found: kind })
            } else if all_zero(hash@) {
                Err::<AssetId, _>(LayoutError::ZeroHash)
            } else {
                Ok(AssetId { kind, domain, hash })
            },
    {
        if !vocabulary.knows(kind) {
            Err(LayoutError::BadKind { found: kind })
        } else if is_zero_digest(&hash) {
            Err(LayoutError::ZeroHash)
        } else {
            Ok(AssetId { kind, domain, hash })
        }
    }
}

/// Map key for one asset's published redundancy layout.
#[derive(Debug, Clone, Copy, PartialEq, Eq, PartialOrd, Ord, Hash)]
pub struct LayoutKey {
    /// Asset family discriminant.
    pub kind: u8,
    /// Raw security-domain value.
    pub domain: u64,
    /// Content hash; never all zero.
    pub hash: [u8; 32],
}

/// What a [`LayoutKey`] says.
#[verifier::ext_equal]
pub struct LayoutKeyView {
    pub kind: u8,
    pub domain: u64,
    pub hash: Seq<u8>,
}

impl View for LayoutKey {
    type V = LayoutKeyView;

    open spec fn view(&self) -> LayoutKeyView {
        LayoutKeyView { kind: self.kind, domain: self.domain, hash: self.hash@ }
    }
}

impl LayoutKeyView {
    /// The kind is known and the hash is a nonzero digest.
    pub open spec fn well_formed(self, vocabulary: FabricVocabulary) -> bool {
        &&& vocabulary.kinds@.contains(self.kind)
        &&& self.hash.len() == 32
        &&& !all_zero(self.hash)
    }

    /// Canonical bytes: kind, domain, hash.
    pub open spec fn encoded(self) -> Seq<u8> {
        seq![self.kind] + u64_bytes(self.domain) + self.hash
    }

    /// The key that `input` spells, or why it spells none.
    pub open spec fn decoded(vocabulary: FabricVocabulary, input: Seq<u8>) -> Result<
        Self,
        LayoutError,
    > {
        if input.len() < LAYOUT_KEY_LEN {
            Err(LayoutError::Truncated)
        } else if input.len() > LAYOUT_KEY_LEN {
            Err(LayoutError::TrailingBytes)
        } else if !vocabulary.kinds@.contains(input[0]) {
            Err(LayoutError::BadKind { found: input[0] })
        } else if all_zero(input.subrange(9, 41)) {
            Err(LayoutError::ZeroHash)
        } else {
            Ok(
                LayoutKeyView {
                    kind: input[0],
                    domain: u64_at(input, 1),
                    hash: input.subrange(9, 41),
                },
            )
        }
    }
}

impl LayoutKey {
    /// The map key of an asset.
    pub open spec fn of_asset(asset: AssetId) -> Self {
        LayoutKey { kind: asset.kind, domain: asset.domain, hash: asset.hash }
    }

    /// The asset that the key names, or why it names none.
    pub open spec fn asset(self, vocabulary: FabricVocabulary) -> Result<AssetId, LayoutError> {
        if !vocabulary.kinds@.contains(self.kind) {
            Err(LayoutError::BadKind { found: self.kind })
        } else if all_zero(self.hash@) {
            Err(LayoutError::ZeroHash)
        } else {
            Ok(AssetId { kind: self.kind, domain: self.domain, hash: self.hash })
        }
    }

    /// Derives the map key from an asset identity.
    pub fn from_asset(asset: &AssetId) -> (key: Self)
        ensures
            key == Self::of_asset(*asset),
    {
        LayoutKey { kind: asset.kind, domain: asset.domain, hash: asset.hash }
    }

    /// Rebuilds the asset identity.
    pub fn to_asset(&self, vocabulary: &FabricVocabulary) -> (result: Result<AssetId, LayoutError>)
        ensures
            result == self.asset(*vocabulary),
    {
        AssetId::new(vocabulary, self.kind, self.domain, self.hash)
    }

    /// Whether two keys name the same asset.
    pub fn same(&self, other: &LayoutKey) -> (same: bool)
        ensures
            same == (self@ == other@),
    {
        if self.kind != other.kind || self.domain != other.domain {
            return false;
        }
        let mut at: usize = 0;
        while at < 32
            invariant
                at <= 32,
                forall|i: int| 0 <= i < at ==> self.hash@[i] == other.hash@[i],
            decreases 32 - at,
        {
            if self.hash[at] != other.hash[at] {
                return false;
            }
            at = at + 1;
        }
        proof {
            assert(self.hash@ =~= other.hash@);
        }
        true
    }

    /// Encodes the canonical bytes: `kind u8, domain u64, hash[32]`.
    pub fn encode_to_vec(&self) -> (out: Vec<u8>)
        ensures
            out@ == self@.encoded(),
            out.len() == LAYOUT_KEY_LEN,
    {
        broadcast use group_fields;

        let mut out: Vec<u8> = Vec::new();
        out.push(self.kind);
        put_u64(&mut out, self.domain);
        put_bytes(&mut out, &self.hash);
        proof {
            assert(out@ =~= self@.encoded());
        }
        out
    }

    /// Decodes exactly one key.
    pub fn decode_exact(vocabulary: &FabricVocabulary, input: &[u8]) -> (result: Result<
        Self,
        LayoutError,
    >)
        ensures
            view_result(result) == LayoutKeyView::decoded(*vocabulary, input@),
            result matches Ok(key) ==> key@.well_formed(*vocabulary),
    {
        if input.len() < LAYOUT_KEY_LEN {
            return Err(LayoutError::Truncated);
        }
        if input.len() > LAYOUT_KEY_LEN {
            return Err(LayoutError::TrailingBytes);
        }
        let kind: u8 = input[0];
        if !vocabulary.knows(kind) {
            return Err(LayoutError::BadKind { found: kind });
        }
        let domain: u64 = get_u64(input, 1);
        let hash: [u8; 32] = get_digest(input, 9);
        if is_zero_digest(&hash) {
            return Err(LayoutError::ZeroHash);
        }
        Ok(LayoutKey { kind, domain, hash })
    }
}

/// One asset's published redundancy record: the fencing generation and the opaque
/// layout bytes.
#[derive(Debug, PartialEq, Eq)]
pub struct LayoutRecord {
    /// Control-plane generation that published this layout; never zero.
    pub control_generation: u64,
    /// Opaque layout bytes.
    pub layout: Vec<u8>,
}

/// What a [`LayoutRecord`] says.
#[verifier::ext_equal]
pub struct LayoutRecordView {
    pub control_generation: u64,
    pub layout: Seq<u8>,
}

impl View for LayoutRecord {
    type V = LayoutRecordView;

    open spec fn view(&self) -> LayoutRecordView {
        LayoutRecordView { control_generation: self.control_generation, layout: self.layout@ }
    }
}

impl Clone for LayoutRecord {
    fn clone(&self) -> (copy: Self)
        ensures
            copy@ == self@,
    {
        let layout: Vec<u8> = copy_bytes(self.layout.as_slice(), 0, self.layout.len());
        proof {
            assert(layout@ =~= self.layout@);
        }
        LayoutRecord { control_generation: self.control_generation, layout }
    }
}

impl LayoutRecordView {
    /// Neither sentinel: a generation and at least one layout byte, within the cap.
    pub open spec fn well_formed(self, vocabulary: FabricVocabulary) -> bool {
        &&& self.control_generation != 0
        &&& 0 < self.layout.len() <= vocabulary.max_layout_bytes
    }

    /// Canonical bytes: generation, layout length, layout.
    pub open spec fn encoded(self) -> Seq<u8> {
        u64_bytes(self.control_generation) + u32_bytes(wire_len(self.layout.len())) + self.layout
    }

    /// The record that `input` spells, or why it spells none.
    pub open spec fn decoded(vocabulary: FabricVocabulary, input: Seq<u8>) -> Result<
        Self,
        LayoutError,
    > {
        let len = u32_at(input, 8);
        if input.len() < 12 {
            Err(LayoutError::Truncated)
        } else if u64_at(input, 0) == 0 {
            Err(LayoutError::ZeroGeneration)
        } else if len > vocabulary.max_layout_bytes || input.len() < 12 + len {
            Err(LayoutError::Oversized { len: len as usize, available: input.len() as usize })
        } else if input.len() > 12 + len {
            Err(LayoutError::TrailingBytes)
        } else if len == 0 {
            Err(LayoutError::EmptyLayout)
        } else {
            Ok(
                LayoutRecordView {
                    control_generation: u64_at(input, 0),
                    layout: input.subrange(12, 12 + len),
                },
            )
        }
    }
}

impl LayoutRecord {
    /// Builds a record from its generation and opaque layout bytes.
    pub fn new(control_generation: u64, layout: Vec<u8>) -> (record: Self)
        ensures
            record@ == (LayoutRecordView { control_generation, layout: layout@ }),
    {
        LayoutRecord { control_generation, layout }
    }

    /// Encodes the canonical bytes: `generation u64, len u32, layout[len]`.
    pub fn encode_to_vec(&self) -> (out: Vec<u8>)
        ensures
            out@ == self@.encoded(),
    {
        let mut out: Vec<u8> = Vec::new();
        put_u64(&mut out, self.control_generation);
        put_u32(&mut out, len_prefix(self.layout.len()));
        put_bytes(&mut out, self.layout.as_slice());
        proof {
            assert(out@ =~= self@.encoded());
        }
        out
    }

    /// Decodes exactly one record.
    pub fn decode_exact(vocabulary: &FabricVocabulary, input: &[u8]) -> (result: Result<
        Self,
        LayoutError,
    >)
        ensures
            view_result(result) == LayoutRecordView::decoded(*vocabulary, input@),
            result matches Ok(record) ==> record@.well_formed(*vocabulary),
    {
        if input.len() < 12 {
            return Err(LayoutError::Truncated);
        }
        let control_generation: u64 = get_u64(input, 0);
        if control_generation == 0 {
            return Err(LayoutError::ZeroGeneration);
        }
        let len: u32 = get_u32(input, 8);
        if len as u64 > vocabulary.max_layout_bytes as u64 || (input.len() as u64) < 12 + (
        len as u64) {
            return Err(LayoutError::Oversized { len: len as usize, available: input.len() });
        }
        if (input.len() as u64) > 12 + (len as u64) {
            return Err(LayoutError::TrailingBytes);
        }
        if len == 0 {
            return Err(LayoutError::EmptyLayout);
        }
        let layout: Vec<u8> = copy_bytes(input, 12, 12 + len as usize);
        Ok(LayoutRecord { control_generation, layout })
    }
}

/// Why a layout key or record was rejected.
#[derive(Debug, Clone, Copy, PartialEq, Eq, Structural)]
#[non_exhaustive]
pub enum LayoutError {
    /// Truncated input where framing promised bytes.
    Truncated,
    /// A length prefix exceeds the cap or the available input.
    Oversized {
        /// Declared length.
        len: usize,
        /// Bytes actually available.
        available: usize,
    },
    /// Trailing bytes after the framed record.
    TrailingBytes,
    /// Unknown asset-kind discriminant in canonical bytes.
    BadKind {
        /// Observed discriminant.
        found: u8,
    },
    /// Asset hash is the all-zero sentinel.
    ZeroHash,
    /// Control generation 0 is the invalid sentinel.
    ZeroGeneration,
    /// Layout payload is empty.
    EmptyLayout,
}

/// A well-formed key decodes from its own encoding.
pub proof fn law_layout_key_round_trip(vocabulary: FabricVocabulary, key: LayoutKeyView)
    requires
        key.well_formed(vocabulary),
    ensures
        LayoutKeyView::decoded(vocabulary, key.encoded()) == Ok::<_, LayoutError>(key),
{
    broadcast use group_fields;

    let bytes = key.encoded();
    assert(bytes[0] == key.kind);
    assert(bytes.subrange(1, 9) =~= u64_bytes(key.domain));
    assert(bytes.subrange(9, 41) =~= key.hash);
}

/// A well-formed record decodes from its own encoding.
pub proof fn law_layout_record_round_trip(vocabulary: FabricVocabulary, record: LayoutRecordView)
    requires
        record.well_formed(vocabulary),
        record.layout.len() <= u32::MAX,
    ensures
        LayoutRecordView::decoded(vocabulary, record.encoded()) == Ok::<_, LayoutError>(record),
{
    broadcast use group_fields;

    let bytes = record.encoded();
    assert(bytes.subrange(0, 8) =~= u64_bytes(record.control_generation));
    assert(bytes.subrange(8, 12) =~= u32_bytes(wire_len(record.layout.len())));
    assert(bytes.subrange(12, 12 + record.layout.len() as int) =~= record.layout);
}

/// An asset with a known kind and a nonzero hash comes back from its key.
pub proof fn law_asset_key_round_trip(vocabulary: FabricVocabulary, asset: AssetId)
    requires
        vocabulary.kinds@.contains(asset.kind),
        !all_zero(asset.hash@),
    ensures
        LayoutKey::of_asset(asset).asset(vocabulary) == Ok::<_, LayoutError>(asset),
{
}

/// The images of a layout key and of its record hold each part at its own place.
pub proof fn law_layout_image_layout(key: LayoutKeyView, record: LayoutRecordView)
    requires
        key.hash.len() == 32,
        record.layout.len() <= u32::MAX,
    ensures
        key.encoded().len() == 41,
        key.encoded()[0] == key.kind,
        u64_at(key.encoded(), 1) == key.domain,
        key.encoded().subrange(9, 41) == key.hash,
        u64_at(record.encoded(), 0) == record.control_generation,
        u32_at(record.encoded(), 8) == record.layout.len(),
        record.encoded().skip(12) == record.layout,
{
    broadcast use group_fields;

    assert(key.encoded().subrange(1, 9) =~= u64_bytes(key.domain));
    assert(key.encoded().subrange(9, 41) =~= key.hash);
    assert(record.encoded().subrange(0, 8) =~= u64_bytes(record.control_generation));
    assert(record.encoded().subrange(8, 12) =~= u32_bytes(wire_len(record.layout.len())));
    assert(record.encoded().skip(12) =~= record.layout);
}

/// What is decoded is valid: a kind of the vocabulary, a hash that is not zero, a
/// generation that is not zero and a layout that is neither empty nor oversized.
pub proof fn law_decoded_layouts_are_valid(vocabulary: FabricVocabulary, input: Seq<u8>)
    ensures
        LayoutKeyView::decoded(vocabulary, input) matches Ok(key) ==> {
            &&& vocabulary.kinds@.contains(key.kind)
            &&& exists|i: int| 0 <= i < 32 && #[trigger] key.hash[i] != 0
            &&& key.hash.len() == 32
        },
        LayoutRecordView::decoded(vocabulary, input) matches Ok(record) ==> {
            &&& record.control_generation > 0
            &&& 0 < record.layout.len() <= vocabulary.max_layout_bytes
            &&& input.len() == 12 + record.layout.len()
        },
{
}

} // verus!
