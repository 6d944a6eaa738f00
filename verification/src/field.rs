//! The tagged field-value model: a closed set of primitive typed values, each
//! with a fixed encoded byte width. All multi-byte integers are encoded
//! little-endian; the byte stream carries no tags, so type information is not
//! self-describing.

use vstd::prelude::*;
use vstd::bytes::lemma_auto_spec_u32_to_from_le_bytes;
use vstd::bytes::lemma_auto_spec_u64_to_from_le_bytes;
use vstd::bytes::spec_u32_to_le_bytes;
use vstd::bytes::spec_u64_to_le_bytes;
use vstd::bytes::u32_to_le_bytes;
use vstd::bytes::u64_to_le_bytes;
use crate::errors::MarshalError;
use crate::marshal::Marshal;
use crate::marshal::write_at;

verus! {

/// A single primitive typed value; exactly one variant is active at a time.
#[derive(Clone, Copy, Debug, PartialEq, Eq, Structural)]
pub enum FieldType {
    /// 32-bit signed integer, encoded as 4 little-endian bytes.
    Int32(i32),
    /// 64-bit signed integer, encoded as 8 little-endian bytes.
    Int64(i64),
}

/// Encoded byte width of a value: fixed per variant.
pub open spec fn field_width(value: FieldType) -> nat {
    match value {
        FieldType::Int32(_) => 4,
        FieldType::Int64(_) => 8,
    }
}

/// Little-endian byte encoding of a value; its length is the variant's width.
pub open spec fn field_encoding(value: FieldType) -> Seq<u8> {
    match value {
        FieldType::Int32(v) => spec_u32_to_le_bytes(v as u32),
        FieldType::Int64(v) => spec_u64_to_le_bytes(v as u64),
    }
}

/// A value's encoding is exactly as long as its declared width.
pub proof fn lemma_field_encoding_len(value: FieldType)
    ensures
        field_encoding(value).len() == field_width(value),
{
    lemma_auto_spec_u32_to_from_le_bytes();
    lemma_auto_spec_u64_to_from_le_bytes();
}

impl FieldType {
    /// Exact number of bytes this value's encoding occupies.
    pub fn encoded_width(&self) -> (n: usize)
        ensures
            n == field_width(*self),
            n == field_encoding(*self).len(),
    {
        proof {
            lemma_field_encoding_len(*self);
        }
        match *self {
            FieldType::Int32(_) => 4,
            FieldType::Int64(_) => 8,
        }
    }
}

/// Wraps exactly one `FieldType` value; immutable after construction. Its
/// encoded width equals its variant's width.
#[derive(Clone, Copy, Debug, PartialEq, Eq, Structural)]
pub struct Field {
    value: FieldType,
}

impl View for Field {
    type V = FieldType;

    closed spec fn view(&self) -> FieldType {
        self.value
    }
}

impl Field {
    /// Total constructor: every `FieldType` value makes a field.
    pub fn new(value: FieldType) -> (f: Field)
        ensures
            f@ == value,
    {
        Field { value }
    }

    /// The wrapped value.
    pub fn value(&self) -> (v: FieldType)
        ensures
            v == self@,
    {
        self.value
    }

    /// The field's encoding as an owned buffer.
    pub fn encoded_bytes(&self) -> (b: Vec<u8>)
        ensures
            b@ == field_encoding(self@),
    {
        match self.value {
            FieldType::Int32(v) => u32_to_le_bytes(v as u32),
            FieldType::Int64(v) => u64_to_le_bytes(v as u64),
        }
    }
}

impl Marshal for Field {
    open spec fn spec_encoding(&self) -> Seq<u8> {
        field_encoding(self@)
    }

    fn size(&self) -> (n: usize) {
        self.value.encoded_width()
    }

    fn serialize(&self, dest: &mut Vec<u8>) -> (r: Result<(), MarshalError>) {
        let b = self.encoded_bytes();
        let n = b.len();
        if dest.len() < n {
            return Err(MarshalError::BufferTooSmall { needed: n, available: dest.len() });
        }
        let ghost orig: Seq<u8> = dest@;
        write_at(dest, 0, &b);
        proof {
            assert(dest@ =~= field_encoding(self@) + orig.skip(field_encoding(self@).len() as int));
        }
        Ok(())
    }
}

} // verus!
