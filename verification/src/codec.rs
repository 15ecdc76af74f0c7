//! Tagged-integer codec for a memory cell's stored value.
//!
//! One memory cell holds either a small scalar or a full wide field element.
//! The cell is represented by a single tagged integer that selects one of the
//! two value tables of a memory trace and carries the index into it. One
//! integer is reserved to mark a hole: an address the run never wrote. The
//! encoding is total on in-range indices, injective, and invertible; decoding
//! an integer that no encoding produced is rejected.

use vstd::prelude::*;

verus! {

/// Number of ids reserved for each value table: ids strictly below this base
/// carry a small-value index, ids from the base up to (but excluding) twice
/// the base carry a wide-field-element index.
pub const WIDE_ID_BASE: u32 = 0x4000_0000;

/// The one id that marks a hole (an unwritten address). It sits at the top
/// of the small-id range, so a small index never reaches it.
pub const EMPTY_ID: u32 = 0x3FFF_FFFF;

/// A decoded memory value id: an index into one of the two value tables of a
/// memory trace, or the marker of an unwritten address.
#[derive(Clone, Copy, Debug, PartialEq, Eq, Structural)]
pub enum MemoryValueId {
    /// Index into the small-value table.
    Small(usize),
    /// Index into the wide (252-bit) field-element table.
    F252(usize),
    /// A hole: the address was never written and must not be dereferenced.
    Empty,
}

/// The tagged-integer form of a [`MemoryValueId`], as carried per address by
/// a memory trace. The exact bit convention is internal to this crate and the
/// backend it feeds; only the round-trip laws below are observable.
#[derive(Clone, Copy, Debug, PartialEq, Eq, Structural, Hash)]
pub struct EncodedMemoryValueId(pub u32);

/// Failures of the codec.
#[derive(Clone, Copy, Debug, PartialEq, Eq, Structural)]
pub enum CodecError {
    /// The index does not fit the range that remains after tagging.
    EncodingOverflow,
    /// The integer is not one that `encode` can produce.
    InvalidEncoding,
}

/// Whether a table index fits the range its tag covers: a small index must
/// stay below the hole marker, a wide index below the id base.
pub open spec fn index_in_range(is_small: bool, index: usize) -> bool {
    if is_small {
        index < EMPTY_ID
    } else {
        index < WIDE_ID_BASE
    }
}

/// The decoded id for a `(is_small, index)` classification.
pub open spec fn tagged(is_small: bool, index: usize) -> MemoryValueId {
    if is_small {
        MemoryValueId::Small(index)
    } else {
        MemoryValueId::F252(index)
    }
}

/// Whether a decoded id's index is in the range that its tag covers.
pub open spec fn id_in_range(id: MemoryValueId) -> bool {
    match id {
        MemoryValueId::Small(index) => index < EMPTY_ID,
        MemoryValueId::F252(index) => index < WIDE_ID_BASE,
        MemoryValueId::Empty => true,
    }
}

/// The tagged integer for a decoded id: small indices are carried as they
/// are, wide indices are shifted up by [`WIDE_ID_BASE`], a hole becomes
/// [`EMPTY_ID`].
pub open spec fn encode_spec(id: MemoryValueId) -> u32
    recommends
        id_in_range(id),
{
    match id {
        MemoryValueId::Small(index) => index as u32,
        MemoryValueId::F252(index) => (index + WIDE_ID_BASE) as u32,
        MemoryValueId::Empty => EMPTY_ID,
    }
}

/// The decoded id for a tagged integer, or `None` where no encoding produces
/// the integer.
pub open spec fn decode_spec(encoded: u32) -> Option<MemoryValueId> {
    if encoded == EMPTY_ID {
        Some(MemoryValueId::Empty)
    } else if encoded < WIDE_ID_BASE {
        Some(MemoryValueId::Small(encoded as usize))
    } else if encoded < 2 * WIDE_ID_BASE {
        Some(MemoryValueId::F252((encoded - WIDE_ID_BASE) as usize))
    } else {
        None
    }
}

/// Tags a table index as small or wide, rejecting an index too large for the
/// range that its tag covers.
pub fn encode(is_small: bool, index: usize) -> (r: Result<EncodedMemoryValueId, CodecError>)
    ensures
        index_in_range(is_small, index) ==> r == Ok::<EncodedMemoryValueId, CodecError>(
            EncodedMemoryValueId(encode_spec(tagged(is_small, index))),
        ),
        !index_in_range(is_small, index) ==> r == Err::<EncodedMemoryValueId, CodecError>(
            CodecError::EncodingOverflow,
        ),
{
    if is_small {
        if index < EMPTY_ID as usize {
            Ok(EncodedMemoryValueId(index as u32))
        } else {
            Err(CodecError::EncodingOverflow)
        }
    } else {
        if index < WIDE_ID_BASE as usize {
            Ok(EncodedMemoryValueId(index as u32 + WIDE_ID_BASE))
        } else {
            Err(CodecError::EncodingOverflow)
        }
    }
}

impl EncodedMemoryValueId {
    /// The id of a hole: an address the run never wrote.
    pub fn empty() -> (r: EncodedMemoryValueId)
        ensures
            r == EncodedMemoryValueId(EMPTY_ID),
            decode_spec(r.0) == Some(MemoryValueId::Empty),
    {
        EncodedMemoryValueId(EMPTY_ID)
    }

    /// Recovers the table and index that an id was encoded from, rejecting an
    /// integer that no encoding produces.
    pub fn decode(self) -> (r: Result<MemoryValueId, CodecError>)
        ensures
            decode_spec(self.0) is Some ==> r == Ok::<MemoryValueId, CodecError>(
                decode_spec(self.0).unwrap(),
            ),
            decode_spec(self.0) is None ==> r == Err::<MemoryValueId, CodecError>(
                CodecError::InvalidEncoding,
            ),
    {
        if self.0 == EMPTY_ID {
            Ok(MemoryValueId::Empty)
        } else if self.0 < WIDE_ID_BASE {
            Ok(MemoryValueId::Small(self.0 as usize))
        } else if self.0 < 2 * WIDE_ID_BASE {
            Ok(MemoryValueId::F252((self.0 - WIDE_ID_BASE) as usize))
        } else {
            Err(CodecError::InvalidEncoding)
        }
    }
}

/// Law: decoding inverts encoding. For every classification whose index is in
/// range, the encoded integer decodes back to exactly that classification.
pub proof fn lemma_decode_encode(is_small: bool, index: usize)
    requires
        index_in_range(is_small, index),
    ensures
        decode_spec(encode_spec(tagged(is_small, index))) == Some(tagged(is_small, index)),
{
}

/// Law: an id produced by `encode` always decodes, and the decoded index
/// stays within the bounds of the table the index was drawn from.
pub proof fn lemma_encoded_id_decodes(is_small: bool, index: usize, table_len: nat)
    requires
        index_in_range(is_small, index),
        index < table_len,
    ensures
        decode_spec(encode_spec(tagged(is_small, index))) is Some,
        match decode_spec(encode_spec(tagged(is_small, index))).unwrap() {
            MemoryValueId::Small(i) => is_small && i < table_len,
            MemoryValueId::F252(i) => !is_small && i < table_len,
            MemoryValueId::Empty => false,
        },
{
}

/// Law: the encoding is injective. Two in-range ids with the same encoded
/// integer are the same id, so no encoded id can decode to more than one
/// `(table, index)` pair.
pub proof fn lemma_encode_injective(a: MemoryValueId, b: MemoryValueId)
    requires
        id_in_range(a),
        id_in_range(b),
        encode_spec(a) == encode_spec(b),
    ensures
        a == b,
{
}

} // verus!
