//! Lazy walk over the records of a segment.
use crate::append_vec::{
    decodes_record, record_end, record_fits, record_next, AppendVec, StoredAccountMeta,
};
use crate::layout::{align_up, RECORD_ALIGN};
use vstd::prelude::*;

verus! {

/// Offsets of the records met when walking from `offset`, following each
/// record to the next until one does not fit in the first `len` bytes.
pub open spec fn record_offsets(bytes: Seq<u8>, len: int, offset: int) -> Seq<int>
    decreases
            if offset <= len {
                len - offset + 1
            } else {
                0
            },
{
    if record_fits(bytes, len, offset) && offset < record_next(bytes, offset) {
        seq![offset] + record_offsets(bytes, len, record_next(bytes, offset))
    } else {
        Seq::empty()
    }
}

/// The offset at which the walk from `offset` stops.
pub open spec fn walk_end(bytes: Seq<u8>, len: int, offset: int) -> int
    decreases
            if offset <= len {
                len - offset + 1
            } else {
                0
            },
{
    if record_fits(bytes, len, offset) && offset < record_next(bytes, offset) {
        walk_end(bytes, len, record_next(bytes, offset))
    } else {
        offset
    }
}

/// The sum of the stored sizes of the records met when walking from
/// `offset`.
pub open spec fn stored_size_total(bytes: Seq<u8>, len: int, offset: int) -> int
    decreases
            if offset <= len {
                len - offset + 1
            } else {
                0
            },
{
    if record_fits(bytes, len, offset) && offset < record_next(bytes, offset) {
        (record_next(bytes, offset) - offset) + stored_size_total(
            bytes,
            len,
            record_next(bytes, offset),
        )
    } else {
        0
    }
}

/// A record that fits always moves the walk forward.
pub proof fn lemma_next_advances(bytes: Seq<u8>, len: int, offset: int)
    requires
        record_fits(bytes, len, offset),
    ensures
        record_end(bytes, offset) <= record_next(bytes, offset) < record_end(bytes, offset)
            + RECORD_ALIGN,
        offset < record_next(bytes, offset),
{
}

/// Records of a segment tile its declared length exactly: walking from the
/// start ends at the declared length.
pub open spec fn is_tiled(seg: AppendVec) -> bool {
    walk_end(seg.bytes(), seg.spec_len() as int, 0) == seg.spec_len()
}

/// Walking from the start of any segment, the stored sizes of the records
/// met add up to the offset where the walk stops, each record's payload ends
/// within the declared length, and the walk stops before the declared length
/// rounded up to the record boundary. Where the records tile the segment,
/// the stored sizes add up to exactly its declared length.
pub proof fn lemma_stored_sizes_cover_segment(seg: AppendVec)
    ensures
        stored_size_total(seg.bytes(), seg.spec_len() as int, 0) == walk_end(
            seg.bytes(),
            seg.spec_len() as int,
            0,
        ),
        walk_end(seg.bytes(), seg.spec_len() as int, 0) <= align_up(seg.spec_len() as int),
        forall|i: int|
            0 <= i < record_offsets(seg.bytes(), seg.spec_len() as int, 0).len() ==> record_end(
                seg.bytes(),
                #[trigger] record_offsets(seg.bytes(), seg.spec_len() as int, 0)[i],
            ) <= seg.spec_len(),
        is_tiled(seg) ==> stored_size_total(seg.bytes(), seg.spec_len() as int, 0)
            == seg.spec_len(),
{
    lemma_walk_facts(seg.bytes(), seg.spec_len() as int, 0);
}

proof fn lemma_walk_facts(bytes: Seq<u8>, len: int, offset: int)
    requires
        0 <= offset <= align_up(len),
        0 <= len,
    ensures
        stored_size_total(bytes, len, offset) == walk_end(bytes, len, offset) - offset,
        offset <= walk_end(bytes, len, offset) <= align_up(len),
        forall|i: int|
            0 <= i < record_offsets(bytes, len, offset).len() ==> record_end(
                bytes,
                #[trigger] record_offsets(bytes, len, offset)[i],
            ) <= len,
    decreases
            if offset <= len {
                len - offset + 1
            } else {
                0
            },
{
    if record_fits(bytes, len, offset) && offset < record_next(bytes, offset) {
        let next = record_next(bytes, offset);
        lemma_align_up_monotone(record_end(bytes, offset), len);
        lemma_walk_facts(bytes, len, next);
        let rest = record_offsets(bytes, len, next);
        assert forall|i: int| 0 <= i < record_offsets(bytes, len, offset).len() implies record_end(
            bytes,
            #[trigger] record_offsets(bytes, len, offset)[i],
        ) <= len by {
            if i > 0 {
                assert(record_offsets(bytes, len, offset)[i] == rest[i - 1]);
            }
        }
    }
}

proof fn lemma_align_up_monotone(a: int, b: int)
    requires
        0 <= a <= b,
    ensures
        align_up(a) <= align_up(b),
        a <= align_up(a) < a + RECORD_ALIGN,
        align_up(a) % (RECORD_ALIGN as int) == 0,
{
}

/// A handle on the record at one offset of a segment. The record is decoded
/// again at each access rather than kept.
pub struct StoredAccountMetaHandle<'s, 'a> {
    append_vec: &'s AppendVec<'a>,
    offset: usize,
}

impl<'s, 'a> StoredAccountMetaHandle<'s, 'a> {
    /// A handle on the record at `offset` of `append_vec`.
    pub fn new(append_vec: &'s AppendVec<'a>, offset: usize) -> (r: StoredAccountMetaHandle<'s, 'a>)
        ensures
            r.segment() == *append_vec,
            r.spec_offset() == offset,
    {
        StoredAccountMetaHandle { append_vec, offset }
    }

    /// The segment the handle points into.
    pub closed spec fn segment(&self) -> AppendVec<'a> {
        *self.append_vec
    }

    /// The offset of the record within its segment.
    pub closed spec fn spec_offset(&self) -> usize {
        self.offset
    }

    /// The offset of the record within its segment.
    pub fn offset(&self) -> (r: usize)
        ensures
            r == self.spec_offset(),
    {
        self.offset
    }

    /// Decodes the record; `None` when it does not fit in its segment.
    pub fn access(&self) -> (r: Option<StoredAccountMeta<'a>>)
        ensures
            r is Some <==> record_fits(
                self.segment().bytes(),
                self.segment().spec_len() as int,
                self.spec_offset() as int,
            ),
            r matches Some(rec) ==> decodes_record(
                rec,
                self.segment().bytes(),
                self.spec_offset() as int,
            ),
    {
        match self.append_vec.get_account(self.offset) {
            Some((rec, _)) => Some(rec),
            None => None,
        }
    }
}

/// A lazy, finite walk over the records of a segment from its start.
pub struct RecordIter<'s, 'a> {
    append_vec: &'s AppendVec<'a>,
    offset: usize,
}

impl<'s, 'a> RecordIter<'s, 'a> {
    /// The segment being walked.
    pub closed spec fn segment(&self) -> AppendVec<'a> {
        *self.append_vec
    }

    /// Offsets of the records not handed out yet.
    pub closed spec fn remaining(&self) -> Seq<int> {
        record_offsets(
            self.append_vec.bytes(),
            self.append_vec.spec_len() as int,
            self.offset as int,
        )
    }

    /// Hands out a handle on the next record, or `None` once the walk has
    /// met a record that does not fit.
    pub fn next(&mut self) -> (r: Option<StoredAccountMetaHandle<'s, 'a>>)
        ensures
            final(self).segment() == old(self).segment(),
            old(self).remaining().len() == 0 ==> r is None && final(self).remaining().len() == 0,
            old(self).remaining().len() > 0 ==> {
                &&& r matches Some(h)
                &&& h.segment() == old(self).segment()
                &&& h.spec_offset() == old(self).remaining()[0]
                &&& record_fits(
                    old(self).segment().bytes(),
                    old(self).segment().spec_len() as int,
                    h.spec_offset() as int,
                )
                &&& final(self).remaining() == old(self).remaining().drop_first()
            },
    {
        let ghost bytes = self.append_vec.bytes();
        let ghost len = self.append_vec.spec_len() as int;
        match self.append_vec.get_account(self.offset) {
            Some((_, next)) => {
                proof {
                    lemma_next_advances(bytes, len, self.offset as int);
                    assert(record_offsets(bytes, len, self.offset as int).drop_first()
                        =~= record_offsets(bytes, len, next as int));
                }
                let h = StoredAccountMetaHandle::new(self.append_vec, self.offset);
                self.offset = next;
                Some(h)
            },
            None => None,
        }
    }
}

/// Starts a walk over the records of `append_vec` at offset 0.
pub fn append_vec_iter<'s, 'a>(append_vec: &'s AppendVec<'a>) -> (r: RecordIter<'s, 'a>)
    ensures
        r.segment() == *append_vec,
        r.remaining() == record_offsets(append_vec.bytes(), append_vec.spec_len() as int, 0),
{
    RecordIter { append_vec, offset: 0 }
}

} // verus!
