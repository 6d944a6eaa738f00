//! Rows: ordered, fixed-arity sequences of fields, built by an arity-checking
//! builder and encoded as the bare concatenation of their fields' encodings
//! (no framing, padding or inline tags).

use vstd::prelude::*;
use crate::errors::BuildError;
use crate::errors::MarshalError;
use crate::field::Field;
use crate::field::field_encoding;
use crate::field::field_width;
use crate::field::lemma_field_encoding_len;
use crate::marshal::Marshal;
use crate::marshal::write_at;

verus! {

/// Byte encoding of an ordered field sequence: each field's encoding,
/// concatenated in field order.
pub open spec fn row_encoding(fields: Seq<Field>) -> Seq<u8>
    decreases fields.len(),
{
    if fields.len() == 0 {
        Seq::empty()
    } else {
        row_encoding(fields.drop_last()) + field_encoding(fields.last()@)
    }
}

/// Sum of the fields' encoded widths.
pub open spec fn total_width(fields: Seq<Field>) -> nat
    decreases fields.len(),
{
    if fields.len() == 0 {
        0
    } else {
        total_width(fields.drop_last()) + field_width(fields.last()@)
    }
}

/// Law: the encoding of a field sequence is exactly as long as the sum of the
/// fields' encoded widths.
pub proof fn lemma_row_encoding_len(fields: Seq<Field>)
    ensures
        row_encoding(fields).len() == total_width(fields),
    decreases fields.len(),
{
    if fields.len() > 0 {
        lemma_row_encoding_len(fields.drop_last());
        lemma_field_encoding_len(fields.last()@);
    }
}

/// Appending one field extends the encoding by that field's encoding and the
/// width sum by that field's width.
pub proof fn lemma_row_encoding_push(fields: Seq<Field>, field: Field)
    ensures
        row_encoding(fields.push(field)) == row_encoding(fields) + field_encoding(field@),
        total_width(fields.push(field)) == total_width(fields) + field_width(field@),
{
    assert(fields.push(field).drop_last() =~= fields);
}

/// One step of the encoding of a prefix: taking one more field appends that
/// field's encoding.
proof fn lemma_row_encoding_take_step(fields: Seq<Field>, i: int)
    requires
        0 <= i < fields.len(),
    ensures
        row_encoding(fields.take(i + 1)) == row_encoding(fields.take(i)) + field_encoding(
            fields[i]@,
        ),
        total_width(fields.take(i + 1)) == total_width(fields.take(i)) + field_width(fields[i]@),
{
    assert(fields.take(i + 1).drop_last() =~= fields.take(i));
    assert(fields.take(i + 1).last() == fields[i]);
}

/// The width sum of a prefix never exceeds the width sum of the whole.
proof fn lemma_total_width_take_le(fields: Seq<Field>, i: int)
    requires
        0 <= i <= fields.len(),
    ensures
        total_width(fields.take(i)) <= total_width(fields),
    decreases fields.len() - i,
{
    if i == fields.len() {
        assert(fields.take(i) =~= fields);
    } else {
        lemma_row_encoding_take_step(fields, i);
        lemma_total_width_take_le(fields, i + 1);
    }
}

/// An ordered, fixed-arity sequence of fields; immutable once built. Its view
/// is the field sequence in insertion order.
pub struct Row {
    fields: Vec<Field>,
}

impl Clone for Row {
    /// A clone carries exactly the same fields.
    fn clone(&self) -> (other: Row)
        ensures
            other@ == self@,
    {
        proof {
            use_type_invariant(&*self);
        }
        let mut fields: Vec<Field> = Vec::new();
        let mut i: usize = 0;
        while i < self.fields.len()
            invariant
                i <= self.fields@.len(),
                fields@ == self.fields@.take(i as int),
            decreases self.fields@.len() - i,
        {
            proof {
                assert(self.fields@.take(i as int).push(self.fields@[i as int]) =~= self.fields@
                    .take(i as int + 1));
            }
            fields.push(self.fields[i]);
            i = i + 1;
        }
        proof {
            assert(self.fields@.take(self.fields@.len() as int) =~= self.fields@);
        }
        Row { fields }
    }
}

impl View for Row {
    type V = Seq<Field>;

    closed spec fn view(&self) -> Seq<Field> {
        self.fields@
    }
}

impl Row {
    #[verifier::type_invariant]
    spec fn wf(self) -> bool {
        total_width(self.fields@) <= usize::MAX
    }
}

impl Marshal for Row {
    open spec fn spec_encoding(&self) -> Seq<u8> {
        row_encoding(self@)
    }

    fn size(&self) -> (n: usize) {
        proof {
            use_type_invariant(&*self);
            lemma_row_encoding_len(self.fields@);
        }
        let mut n: usize = 0;
        let mut i: usize = 0;
        while i < self.fields.len()
            invariant
                i <= self.fields@.len(),
                n == total_width(self.fields@.take(i as int)),
                total_width(self.fields@) <= usize::MAX,
            decreases self.fields@.len() - i,
        {
            proof {
                lemma_row_encoding_take_step(self.fields@, i as int);
                lemma_total_width_take_le(self.fields@, i as int + 1);
            }
            n = n + self.fields[i].value().encoded_width();
            i = i + 1;
        }
        proof {
            assert(self.fields@.take(self.fields@.len() as int) =~= self.fields@);
        }
        n
    }

    fn serialize(&self, dest: &mut Vec<u8>) -> (r: Result<(), MarshalError>) {
        proof {
            use_type_invariant(&*self);
            lemma_row_encoding_len(self.fields@);
        }
        let n = self.size();
        if dest.len() < n {
            return Err(MarshalError::BufferTooSmall { needed: n, available: dest.len() });
        }
        let ghost orig: Seq<u8> = dest@;
        let mut off: usize = 0;
        let mut i: usize = 0;
        while i < self.fields.len()
            invariant
                i <= self.fields@.len(),
                off == total_width(self.fields@.take(i as int)),
                total_width(self.fields@) <= usize::MAX,
                n == total_width(self.fields@),
                n <= orig.len(),
                dest@.len() == orig.len(),
                dest@ == row_encoding(self.fields@.take(i as int)) + orig.skip(off as int),
            decreases self.fields@.len() - i,
        {
            let ghost prev: Seq<u8> = dest@;
            let ghost enc_i: Seq<u8> = row_encoding(self.fields@.take(i as int));
            let b = self.fields[i].encoded_bytes();
            proof {
                lemma_field_encoding_len(self.fields@[i as int]@);
                lemma_row_encoding_take_step(self.fields@, i as int);
                lemma_total_width_take_le(self.fields@, i as int + 1);
                lemma_row_encoding_len(self.fields@.take(i as int));
            }
            write_at(dest, off, &b);
            proof {
                assert(prev.take(off as int) =~= enc_i);
                assert(prev.skip(off as int + b@.len() as int) =~= orig.skip(
                    off as int + b@.len() as int,
                ));
                assert(dest@ =~= row_encoding(self.fields@.take(i as int + 1)) + orig.skip(
                    off as int + b@.len() as int,
                ));
            }
            off = off + b.len();
            i = i + 1;
        }
        proof {
            assert(self.fields@.take(self.fields@.len() as int) =~= self.fields@);
        }
        Ok(())
    }
}

/// Accumulator bound to a target arity; fields are appended in order and
/// validated only at `build`, which consumes the builder.
pub struct RowBuilder {
    arity: usize,
    fields: Vec<Field>,
}

impl RowBuilder {
    #[verifier::type_invariant]
    spec fn wf(self) -> bool {
        total_width(self.fields@) <= usize::MAX
    }

    /// The arity declared at construction.
    pub closed spec fn spec_arity(self) -> usize {
        self.arity
    }

    /// The fields appended so far, in insertion order.
    pub closed spec fn spec_fields(self) -> Seq<Field> {
        self.fields@
    }

    /// A fresh builder holding no fields; any arity is accepted.
    pub fn new(arity: usize) -> (b: RowBuilder)
        ensures
            b.spec_arity() == arity,
            b.spec_fields() == Seq::<Field>::empty(),
    {
        RowBuilder { arity, fields: Vec::new() }
    }

    /// Appends one field. Arity is not checked here: too many fields are only
    /// detected at `build`. The precondition only keeps the row's total
    /// encoded width within the machine's addressable size.
    pub fn add_field(self, field: Field) -> (b: RowBuilder)
        requires
            total_width(self.spec_fields()) + field_width(field@) <= usize::MAX,
        ensures
            b.spec_arity() == self.spec_arity(),
            b.spec_fields() == self.spec_fields().push(field),
    {
        let RowBuilder { arity, mut fields } = self;
        proof {
            lemma_row_encoding_push(fields@, field);
        }
        fields.push(field);
        RowBuilder { arity, fields }
    }

    /// Validates the arity: succeeds exactly when the number of appended
    /// fields equals the declared arity, yielding a row whose field order is
    /// the insertion order; otherwise fails with `ArityMismatch` and no row.
    pub fn build(self) -> (r: Result<Row, BuildError>)
        ensures
            r is Ok <==> self.spec_fields().len() == self.spec_arity(),
            r is Ok ==> r->Ok_0@ == self.spec_fields(),
            r is Err ==> r == Err::<Row, BuildError>(
                BuildError::ArityMismatch {
                    expected: self.spec_arity(),
                    actual: self.spec_fields().len() as usize,
                },
            ),
    {
        proof {
            use_type_invariant(&self);
        }
        let RowBuilder { arity, fields } = self;
        if fields.len() == arity {
            Ok(Row { fields })
        } else {
            Err(BuildError::ArityMismatch { expected: arity, actual: fields.len() })
        }
    }
}

} // verus!
