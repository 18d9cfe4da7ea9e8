//! Byte layout of a stored account record.
use vstd::bytes::{spec_u64_from_le_bytes, u64_from_le_bytes};
use vstd::prelude::*;

verus! {

/// A 32-byte account identity.
pub type Pubkey = [u8; 32];

/// A 32-byte content hash.
pub type HashBytes = [u8; 32];

/// Size of the metadata header: write version, data length, identity.
pub const STORED_META_SIZE: usize = 48;

/// Size of the attributes header: balance, rent epoch, owner, executable
/// flag and padding to an 8-byte boundary.
pub const ACCOUNT_META_SIZE: usize = 56;

/// Size of the stored content hash.
pub const HASH_SIZE: usize = 32;

/// The three fixed sub-regions that precede the data payload of a record.
pub const RECORD_HEADER_SIZE: usize = 136;

/// Records start on multiples of this boundary.
pub const RECORD_ALIGN: usize = 64;

/// The largest segment file that is accepted (16 GiB).
pub const MAXIMUM_APPEND_VEC_FILE_SIZE: u64 = 17179869184;

/// `n` rounded up to the next multiple of `RECORD_ALIGN`.
pub open spec fn align_up(n: int) -> int {
    if n % (RECORD_ALIGN as int) == 0 {
        n
    } else {
        n - n % (RECORD_ALIGN as int) + RECORD_ALIGN as int
    }
}

/// The little-endian `u64` stored at `at`.
pub open spec fn u64_at(bytes: Seq<u8>, at: int) -> u64 {
    spec_u64_from_le_bytes(bytes.subrange(at, at + 8))
}

/// Rounds `n` up to the next multiple of `RECORD_ALIGN`.
pub fn align_up_usize(n: usize) -> (r: usize)
    requires
        n + RECORD_ALIGN <= usize::MAX,
    ensures
        r as int == align_up(n as int),
        n <= r < n + RECORD_ALIGN,
        r % RECORD_ALIGN == 0,
{
    let rem = n % RECORD_ALIGN;
    if rem == 0 {
        n
    } else {
        n - rem + RECORD_ALIGN
    }
}

/// Reads the little-endian `u64` stored at `at`.
pub fn read_u64(bytes: &[u8], at: usize) -> (r: u64)
    requires
        at + 8 <= bytes@.len(),
    ensures
        r == u64_at(bytes@, at as int),
{
    let n = bytes.len();
    assert(n == bytes@.len());
    let s = &bytes[at..at + 8];
    u64_from_le_bytes(s)
}

/// Copies the 32 bytes stored at `at`.
pub fn read_bytes32(bytes: &[u8], at: usize) -> (r: [u8; 32])
    requires
        at + 32 <= bytes@.len(),
    ensures
        r@ == bytes@.subrange(at as int, at + 32),
{
    let n = bytes.len();
    let mut r = [0u8; 32];
    let mut i: usize = 0;
    while i < 32
        invariant
            i <= 32,
            at + 32 <= bytes@.len(),
            n == bytes@.len(),
            r@.len() == 32,
            forall|j: int| 0 <= j < i ==> r@[j] == bytes@[at + j],
        decreases 32 - i,
    {
        r[i] = bytes[at + i];
        i = i + 1;
    }
    assert(r@ =~= bytes@.subrange(at as int, at + 32));
    r
}

} // verus!
