//! Read-only access to one storage segment and the records it holds.
use crate::layout::{
    align_up, align_up_usize, read_bytes32, read_u64, u64_at, HashBytes, Pubkey,
    MAXIMUM_APPEND_VEC_FILE_SIZE, RECORD_HEADER_SIZE,
};
use vstd::prelude::*;

verus! {

/// Why a segment was refused at open time.
#[derive(Clone, Copy, Debug, PartialEq, Eq, Structural)]
pub enum SegmentError {
    /// The file is empty.
    FileTooSmall { file_size: usize },
    /// The file is larger than the maximum segment size.
    FileTooLarge { file_size: usize },
    /// The declared length runs past the end of the file.
    LenExceedsFileSize { current_len: usize, file_size: usize },
}

/// A physical size that the maximum segment size admits.
pub open spec fn file_size_allowed(file_size: int) -> bool {
    MAXIMUM_APPEND_VEC_FILE_SIZE <= usize::MAX && file_size <= MAXIMUM_APPEND_VEC_FILE_SIZE
}

/// The outcome of validating a declared length against a physical size.
pub open spec fn sanitize_result(current_len: usize, file_size: usize) -> Result<(), SegmentError> {
    if file_size == 0 {
        Err(SegmentError::FileTooSmall { file_size })
    } else if !file_size_allowed(file_size as int) {
        Err(SegmentError::FileTooLarge { file_size })
    } else if current_len > file_size {
        Err(SegmentError::LenExceedsFileSize { current_len, file_size })
    } else {
        Ok(())
    }
}

/// The declared data length of the record at `offset`.
pub open spec fn record_data_len(bytes: Seq<u8>, offset: int) -> int {
    u64_at(bytes, offset + 8) as int
}

/// The first byte after the payload of the record at `offset`.
pub open spec fn record_end(bytes: Seq<u8>, offset: int) -> int {
    offset + RECORD_HEADER_SIZE + record_data_len(bytes, offset)
}

/// The aligned offset at which the record after the one at `offset` starts.
pub open spec fn record_next(bytes: Seq<u8>, offset: int) -> int {
    align_up(record_end(bytes, offset))
}

/// The record at `offset`, headers and payload, lies within the first `len`
/// bytes.
pub open spec fn record_fits(bytes: Seq<u8>, len: int, offset: int) -> bool {
    &&& 0 <= offset
    &&& offset + RECORD_HEADER_SIZE <= len
    &&& record_end(bytes, offset) <= len
}

/// Metadata header of a stored record.
#[derive(Clone, Copy, Debug, PartialEq, Eq)]
pub struct StoredMeta {
    pub write_version_obsolete: u64,
    pub data_len: u64,
    pub pubkey: Pubkey,
}

/// Attributes header of a stored record.
#[derive(Clone, Copy, Debug, PartialEq, Eq)]
pub struct AccountMeta {
    pub lamports: u64,
    pub rent_epoch: u64,
    pub owner: Pubkey,
    pub executable: bool,
}

/// An owned account state.
#[derive(Clone, Debug, PartialEq, Eq)]
pub struct Account {
    pub lamports: u64,
    pub data: Vec<u8>,
    pub owner: Pubkey,
    pub executable: bool,
    pub rent_epoch: u64,
}

/// A decoded record whose payload borrows the segment's memory.
#[derive(Debug)]
pub struct StoredAccountMeta<'a> {
    pub meta: StoredMeta,
    pub account_meta: AccountMeta,
    pub data: &'a [u8],
    pub offset: usize,
    pub stored_size: usize,
    pub hash: HashBytes,
}

/// `r` is the record stored at `offset` in `bytes`.
pub open spec fn decodes_record(r: StoredAccountMeta, bytes: Seq<u8>, offset: int) -> bool {
    &&& r.meta.write_version_obsolete == u64_at(bytes, offset)
    &&& r.meta.data_len == u64_at(bytes, offset + 8)
    &&& r.meta.pubkey@ == bytes.subrange(offset + 16, offset + 48)
    &&& r.account_meta.lamports == u64_at(bytes, offset + 48)
    &&& r.account_meta.rent_epoch == u64_at(bytes, offset + 56)
    &&& r.account_meta.owner@ == bytes.subrange(offset + 64, offset + 96)
    &&& r.account_meta.executable == (bytes[offset + 96] != 0)
    &&& r.hash@ == bytes.subrange(offset + 104, offset + 136)
    &&& r.data@ == bytes.subrange(offset + RECORD_HEADER_SIZE, record_end(bytes, offset))
    &&& r.offset == offset
    &&& r.stored_size == record_next(bytes, offset) - offset
}

impl<'a> StoredAccountMeta<'a> {
    /// Copies the referenced state into an owned account.
    pub fn clone_account(&self) -> (r: Account)
        ensures
            r.lamports == self.account_meta.lamports,
            r.owner == self.account_meta.owner,
            r.executable == self.account_meta.executable,
            r.rent_epoch == self.account_meta.rent_epoch,
            r.data@ == self.data@,
    {
        Account {
            lamports: self.account_meta.lamports,
            owner: self.account_meta.owner,
            executable: self.account_meta.executable,
            rent_epoch: self.account_meta.rent_epoch,
            data: vstd::slice::slice_to_vec(self.data),
        }
    }
}

/// One storage segment: the mapped bytes of its file and the declared length
/// of the part that holds records.
pub struct AppendVec<'a> {
    map: &'a [u8],
    current_len: usize,
    slot: u64,
    id: u64,
}

impl<'a> AppendVec<'a> {
    #[verifier::type_invariant]
    spec fn inv(&self) -> bool {
        &&& self.map@.len() <= usize::MAX
        &&& sanitize_result(self.current_len, self.map@.len() as usize) == Ok::<(), SegmentError>(())
    }

    /// The mapped bytes of the segment file.
    pub closed spec fn bytes(&self) -> Seq<u8> {
        self.map@
    }

    /// The declared length of the segment.
    pub closed spec fn spec_len(&self) -> nat {
        self.current_len as nat
    }

    /// The slot the segment belongs to.
    pub closed spec fn spec_slot(&self) -> u64 {
        self.slot
    }

    /// The segment's id within its slot.
    pub closed spec fn spec_id(&self) -> u64 {
        self.id
    }

    /// Checks a declared length against the physical size of a segment file.
    pub fn sanitize_len_and_size(current_len: usize, file_size: usize) -> (r: Result<(), SegmentError>)
        ensures
            r == sanitize_result(current_len, file_size),
    {
        if file_size == 0 {
            Err(SegmentError::FileTooSmall { file_size })
        } else if MAXIMUM_APPEND_VEC_FILE_SIZE > usize::MAX as u64 || file_size as u64
            > MAXIMUM_APPEND_VEC_FILE_SIZE {
            Err(SegmentError::FileTooLarge { file_size })
        } else if current_len > file_size {
            Err(SegmentError::LenExceedsFileSize { current_len, file_size })
        } else {
            Ok(())
        }
    }

    /// Opens a segment over the mapped bytes of its file, whose length is the
    /// file's physical size.
    pub fn new(map: &'a [u8], current_len: usize, slot: u64, id: u64) -> (r: Result<
        AppendVec<'a>,
        SegmentError,
    >)
        ensures
            match r {
                Ok(v) => {
                    &&& sanitize_result(current_len, map@.len() as usize) == Ok::<(), SegmentError>(())
                    &&& v.bytes() == map@
                    &&& v.spec_len() == current_len
                    &&& v.spec_slot() == slot
                    &&& v.spec_id() == id
                },
                Err(e) => sanitize_result(current_len, map@.len() as usize) == Err::<(), SegmentError>(e),
            },
    {
        let file_size = map.len();
        match Self::sanitize_len_and_size(current_len, file_size) {
            Ok(()) => Ok(AppendVec { map, current_len, slot, id }),
            Err(e) => Err(e),
        }
    }

    /// The declared length: the number of bytes that hold records.
    pub fn len(&self) -> (r: usize)
        ensures
            r == self.spec_len(),
            r <= self.bytes().len() <= MAXIMUM_APPEND_VEC_FILE_SIZE,
    {
        proof {
            use_type_invariant(self);
        }
        self.current_len
    }

    /// The slot the segment belongs to.
    pub fn slot(&self) -> (r: u64)
        ensures
            r == self.spec_slot(),
    {
        self.slot
    }

    /// The segment's id within its slot.
    pub fn id(&self) -> (r: u64)
        ensures
            r == self.spec_id(),
    {
        self.id
    }

    /// The `size` bytes at `offset`, if they end within the declared length,
    /// with the aligned offset that follows them.
    fn get_slice(&self, offset: usize, size: usize) -> (r: Option<(&'a [u8], usize)>)
        ensures
            match r {
                Some((s, next)) => {
                    &&& offset + size <= self.spec_len()
                    &&& s@ == self.bytes().subrange(offset as int, offset + size)
                    &&& next == align_up(offset + size)
                },
                None => offset + size > self.spec_len(),
            },
    {
        proof {
            use_type_invariant(self);
        }
        if offset > self.current_len || size > self.current_len - offset {
            return None;
        }
        let end = offset + size;
        let s = &self.map[offset..end];
        Some((s, align_up_usize(end)))
    }

    /// Decodes the record at `offset` and returns it with the offset of the
    /// record that follows; `None` when its headers or payload would run
    /// past the declared length.
    pub fn get_account(&self, offset: usize) -> (r: Option<(StoredAccountMeta<'a>, usize)>)
        ensures
            r is Some <==> record_fits(self.bytes(), self.spec_len() as int, offset as int),
            offset + RECORD_HEADER_SIZE > self.spec_len() ==> r is None,
            r matches Some((rec, next)) ==> {
                &&& decodes_record(rec, self.bytes(), offset as int)
                &&& next == record_next(self.bytes(), offset as int)
            },
    {
        proof {
            use_type_invariant(self);
        }
        let (header, after_header) = match self.get_slice(offset, RECORD_HEADER_SIZE) {
            Some(h) => h,
            None => return None,
        };
        proof {
            let b = self.bytes();
            let h = header@;
            assert(h == b.subrange(offset as int, offset + RECORD_HEADER_SIZE));
            assert(h.subrange(8, 16) =~= b.subrange(offset + 8, offset + 16));
            assert(h.subrange(0, 8) =~= b.subrange(offset as int, offset + 8));
            assert(h.subrange(48, 56) =~= b.subrange(offset + 48, offset + 56));
            assert(h.subrange(56, 64) =~= b.subrange(offset + 56, offset + 64));
            assert(h.subrange(16, 48) =~= b.subrange(offset + 16, offset + 48));
            assert(h.subrange(64, 96) =~= b.subrange(offset + 64, offset + 96));
            assert(h.subrange(104, 136) =~= b.subrange(offset + 104, offset + 136));
        }
        let data_len = read_u64(header, 8);
        let start = offset + RECORD_HEADER_SIZE;
        if data_len > (self.current_len - start) as u64 {
            return None;
        }
        let (data, next) = match self.get_slice(start, data_len as usize) {
            Some(d) => d,
            None => return None,
        };
        let meta = StoredMeta {
            write_version_obsolete: read_u64(header, 0),
            data_len,
            pubkey: read_bytes32(header, 16),
        };
        let account_meta = AccountMeta {
            lamports: read_u64(header, 48),
            rent_epoch: read_u64(header, 56),
            owner: read_bytes32(header, 64),
            executable: header[96] != 0,
        };
        let hash = read_bytes32(header, 104);
        let rec = StoredAccountMeta {
            meta,
            account_meta,
            data,
            offset,
            stored_size: next - offset,
            hash,
        };
        Some((rec, next))
    }
}

} // verus!
