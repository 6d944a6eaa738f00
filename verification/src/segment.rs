//! The segment-writing state machine. A writer is created `Ready`, holding a
//! one-shot row source; taking the source encodes every row, in source order,
//! into its own scratch buffer and moves the writer to `Consumed`. A segment
//! is the bare concatenation of those buffers: no header, no footer, no
//! per-row length prefix, so a reader must know row widths out-of-band.
//!
//! Opening the destination and pushing the buffers to it is the caller's
//! side; an I/O failure mid-stream leaves the rows already appended in place
//! (the format offers no crash-consistency guarantee mid-write).

use vstd::prelude::*;
use crate::errors::WriteError;
use crate::marshal::Marshal;
use crate::row::Row;
use crate::row::row_encoding;

verus! {

/// Lifecycle of a writer: `Ready` still holds its row source, `Consumed` has
/// given it up.
#[derive(Clone, Copy, Debug, PartialEq, Eq, Structural)]
pub enum WriterState {
    Ready,
    Consumed,
}

/// Byte content of a whole segment: the rows' encodings, concatenated in
/// source order.
pub open spec fn segment_encoding(rows: Seq<Row>) -> Seq<u8>
    decreases rows.len(),
{
    if rows.len() == 0 {
        Seq::empty()
    } else {
        segment_encoding(rows.drop_last()) + row_encoding(rows.last()@)
    }
}

/// Sum of the rows' encoded sizes: the total byte length of the segment.
pub open spec fn total_size(rows: Seq<Row>) -> nat
    decreases rows.len(),
{
    if rows.len() == 0 {
        0
    } else {
        total_size(rows.drop_last()) + row_encoding(rows.last()@).len()
    }
}

/// Concatenation of a sequence of byte buffers, in order.
pub open spec fn concat_bufs(bufs: Seq<Seq<u8>>) -> Seq<u8>
    decreases bufs.len(),
{
    if bufs.len() == 0 {
        Seq::empty()
    } else {
        concat_bufs(bufs.drop_last()) + bufs.last()
    }
}

/// The byte sequences of a sequence of owned buffers.
pub open spec fn views_of(bufs: Seq<Vec<u8>>) -> Seq<Seq<u8>> {
    bufs.map_values(|b: Vec<u8>| b@)
}

/// Law: a segment holds exactly `total_size` bytes — the sum of its rows'
/// encoded sizes.
pub proof fn lemma_segment_encoding_len(rows: Seq<Row>)
    ensures
        segment_encoding(rows).len() == total_size(rows),
    decreases rows.len(),
{
    if rows.len() > 0 {
        lemma_segment_encoding_len(rows.drop_last());
    }
}

/// Law: buffers that hold, in order, each row's encoding concatenate to the
/// segment's encoding.
pub proof fn lemma_concat_encoded_rows(bufs: Seq<Seq<u8>>, rows: Seq<Row>)
    requires
        bufs.len() == rows.len(),
        forall|i: int| 0 <= i < rows.len() ==> bufs[i] == row_encoding(rows[i]@),
    ensures
        concat_bufs(bufs) == segment_encoding(rows),
    decreases rows.len(),
{
    if rows.len() > 0 {
        lemma_concat_encoded_rows(bufs.drop_last(), rows.drop_last());
    }
}

/// Binds a one-shot row source; the source is taken exactly once.
pub struct SegmentWriter {
    rows: Option<Vec<Row>>,
}

impl SegmentWriter {
    /// `Ready` while the row source is still held, `Consumed` after.
    pub closed spec fn state(self) -> WriterState {
        if self.rows is Some {
            WriterState::Ready
        } else {
            WriterState::Consumed
        }
    }

    /// The rows still held by a `Ready` writer.
    pub closed spec fn spec_rows(self) -> Seq<Row> {
        self.rows->0@
    }

    /// A writer in `Ready` state over the given row source.
    pub fn new(rows: Vec<Row>) -> (w: SegmentWriter)
        ensures
            w.state() == WriterState::Ready,
            w.spec_rows() == rows@,
    {
        SegmentWriter { rows: Some(rows) }
    }

    /// The writer's current lifecycle state.
    pub fn current_state(&self) -> (s: WriterState)
        ensures
            s == self.state(),
    {
        if self.rows.is_some() {
            WriterState::Ready
        } else {
            WriterState::Consumed
        }
    }

    /// Takes the row source exactly once and encodes each row, in source
    /// order, into its own scratch buffer sized by the row's reported size.
    /// The buffers, written to the destination in order, form the segment:
    /// their concatenation is `segment_encoding` of the source. A second call
    /// observes `Consumed`, changes nothing and fails with `AlreadyConsumed`.
    pub fn write_rows(&mut self) -> (r: Result<Vec<Vec<u8>>, WriteError>)
        ensures
            final(self).state() == WriterState::Consumed,
            old(self).state() == WriterState::Consumed ==> r == Err::<Vec<Vec<u8>>, WriteError>(
                WriteError::AlreadyConsumed,
            ) && *final(self) == *old(self),
            old(self).state() == WriterState::Ready <==> r is Ok,
            r is Ok ==> {
                &&& r->Ok_0@.len() == old(self).spec_rows().len()
                &&& (forall|i: int|
                    0 <= i < old(self).spec_rows().len() ==> r->Ok_0@[i]@ == row_encoding(
                        old(self).spec_rows()[i]@,
                    ))
                &&& concat_bufs(views_of(r->Ok_0@)) == segment_encoding(old(self).spec_rows())
            },
    {
        match self.rows.take() {
            None => Err(WriteError::AlreadyConsumed),
            Some(rows) => {
                let mut bufs: Vec<Vec<u8>> = Vec::new();
                let mut i: usize = 0;
                while i < rows.len()
                    invariant
                        i <= rows@.len(),
                        bufs@.len() == i,
                        forall|j: int|
                            0 <= j < i ==> bufs@[j]@ == row_encoding(rows@[j]@),
                    decreases rows@.len() - i,
                {
                    let row = &rows[i];
                    let n = row.size();
                    let mut buf = zeroed(n);
                    match row.serialize(&mut buf) {
                        Ok(()) => {
                            proof {
                                assert(buf@ =~= row_encoding(rows@[i as int]@));
                            }
                            bufs.push(buf);
                        },
                        // a scratch buffer sized by the row's own size report
                        // always holds its full encoding, so this arm cannot
                        // be reached; it keeps the error surface of the write
                        // path explicit
                        Err(_) => {
                            return Err(WriteError::SerializationFailure { row_index: i });
                        },
                    }
                    i = i + 1;
                }
                proof {
                    assert(views_of(bufs@).len() == rows@.len());
                    assert forall|j: int| 0 <= j < rows@.len() implies views_of(bufs@)[j]
                        == row_encoding(rows@[j]@) by {
                        assert(views_of(bufs@)[j] == bufs@[j]@);
                    }
                    lemma_concat_encoded_rows(views_of(bufs@), rows@);
                }
                Ok(bufs)
            },
        }
    }
}

/// A zero-filled scratch buffer of the requested length.
fn zeroed(n: usize) -> (v: Vec<u8>)
    ensures
        v@.len() == n,
{
    let mut v: Vec<u8> = Vec::new();
    let mut i: usize = 0;
    while i < n
        invariant
            v@.len() == i,
            i <= n,
        decreases n - i,
    {
        v.push(0);
        i = i + 1;
    }
    v
}

} // verus!
