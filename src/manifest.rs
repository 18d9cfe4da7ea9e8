//! The accounts-database section of a snapshot manifest.
//!
//! The section follows the bank state in the manifest stream and is encoded
//! with fixed-width little-endian integers: a map from slot to the segments
//! stored for it (a `u64` count, then for each slot its number, a `u64`
//! count and that many `(id, length)` pairs), the write version, the slot,
//! the bank hash information, and two trailing lists of recent roots that
//! older manifests leave out.
use crate::layout::{read_bytes32, read_u64, u64_at, HashBytes};
use std::collections::HashMap;
use vstd::prelude::*;

verus! {

broadcast use vstd::std_specs::hash::group_hash_axioms;

/// No read of the manifest stream goes past this many bytes (32 GiB).
pub const MAX_STREAM_SIZE: u64 = 34359738368;

/// Size of the fixed fields between the segment map and the root lists.
pub const FIXED_FIELDS_SIZE: usize = 120;

/// Why the accounts-database section could not be decoded.
#[derive(Clone, Copy, Debug, PartialEq, Eq, Structural)]
pub enum ManifestError {
    /// The stream ended inside a field.
    UnexpectedEof,
    /// A field reaches past the size cap of the stream.
    SizeLimit,
    /// A length or id does not fit in a `usize`.
    InvalidValue,
}

/// A segment as the manifest declares it.
#[derive(Clone, Copy, Debug, PartialEq, Eq, Structural)]
pub struct SerializableAccountStorageEntry {
    pub id: usize,
    pub accounts_current_len: usize,
}

/// Counters kept with the bank hash.
#[derive(Clone, Copy, Debug, PartialEq, Eq, Structural)]
pub struct BankHashStats {
    pub num_updated_accounts: u64,
    pub num_removed_accounts: u64,
    pub num_lamports_stored: u64,
    pub total_data_len: u64,
    pub num_executable_accounts: u64,
}

/// The bank hash, the snapshot hash and their counters.
#[derive(Clone, Copy, Debug, PartialEq, Eq)]
pub struct BankHashInfo {
    pub hash: HashBytes,
    pub snapshot_hash: HashBytes,
    pub stats: BankHashStats,
}

/// The decoded accounts-database section.
pub struct AccountsDbFields {
    /// For each slot, the segments stored for it.
    pub storages: HashMap<u64, Vec<SerializableAccountStorageEntry>>,
    pub write_version: u64,
    pub slot: u64,
    pub bank_hash_info: BankHashInfo,
    /// All slots that were roots within the last epoch.
    pub historical_roots: Vec<u64>,
    /// Roots within the last epoch whose hash is kept.
    pub historical_roots_with_hash: Vec<(u64, HashBytes)>,
}

/// The position after a read of `size` bytes at `pos`, or why it fails.
pub open spec fn advance(len: int, pos: int, size: int) -> Result<int, ManifestError> {
    if pos + size > MAX_STREAM_SIZE {
        Err(ManifestError::SizeLimit)
    } else if pos + size > len {
        Err(ManifestError::UnexpectedEof)
    } else {
        Ok(pos + size)
    }
}

/// The segment entry encoded at `p`.
pub open spec fn entry_at(s: Seq<u8>, p: int) -> SerializableAccountStorageEntry {
    SerializableAccountStorageEntry {
        id: u64_at(s, p) as usize,
        accounts_current_len: u64_at(s, p + 8) as usize,
    }
}

/// The position after the segment entry at `p`.
pub open spec fn entry_end(s: Seq<u8>, p: int) -> Result<int, ManifestError> {
    match advance(s.len() as int, p, 16) {
        Ok(q) => if u64_at(s, p) <= usize::MAX && u64_at(s, p + 8) <= usize::MAX {
            Ok(q)
        } else {
            Err(ManifestError::InvalidValue)
        },
        Err(e) => Err(e),
    }
}

/// The position after `n` segment entries starting at `p`.
pub open spec fn entries_end(s: Seq<u8>, p: int, n: nat) -> Result<int, ManifestError>
    decreases n,
{
    if n == 0 {
        Ok(p)
    } else {
        match entries_end(s, p, (n - 1) as nat) {
            Ok(q) => entry_end(s, q),
            Err(e) => Err(e),
        }
    }
}

/// The segment entries of the slot whose header is at `g`.
pub open spec fn group_entries(s: Seq<u8>, g: int) -> Seq<SerializableAccountStorageEntry> {
    Seq::new(u64_at(s, g + 8) as nat, |j: int| entry_at(s, g + 16 + 16 * j))
}

/// The position after the slot whose header is at `g`.
pub open spec fn group_end(s: Seq<u8>, g: int) -> Result<int, ManifestError> {
    match advance(s.len() as int, g, 16) {
        Ok(q) => entries_end(s, q, u64_at(s, g + 8) as nat),
        Err(e) => Err(e),
    }
}

/// The `n` slots whose headers start at `p`, in stream order, with the
/// position after them.
pub open spec fn groups(s: Seq<u8>, p: int, n: nat) -> Result<
    (Seq<(u64, Seq<SerializableAccountStorageEntry>)>, int),
    ManifestError,
>
    decreases n,
{
    if n == 0 {
        Ok((Seq::empty(), p))
    } else {
        match groups(s, p, (n - 1) as nat) {
            Ok((gs, q)) => match group_end(s, q) {
                Ok(r) => Ok((gs.push((u64_at(s, q), group_entries(s, q))), r)),
                Err(e) => Err(e),
            },
            Err(e) => Err(e),
        }
    }
}

/// The slot-to-segments map that a list of slots gives: a slot listed twice
/// keeps its last segments.
pub open spec fn storage_map(gs: Seq<(u64, Seq<SerializableAccountStorageEntry>)>) -> Map<
    u64,
    Seq<SerializableAccountStorageEntry>,
>
    decreases gs.len(),
{
    if gs.len() == 0 {
        Map::empty()
    } else {
        storage_map(gs.drop_last()).insert(gs.last().0, gs.last().1)
    }
}

/// The segments of each slot, as sequences.
pub open spec fn storages_view(m: Map<u64, Vec<SerializableAccountStorageEntry>>) -> Map<
    u64,
    Seq<SerializableAccountStorageEntry>,
> {
    m.map_values(|v: Vec<SerializableAccountStorageEntry>| v@)
}

/// The position after `n` elements of `size` bytes starting at `p`.
pub open spec fn elements_end(s: Seq<u8>, p: int, n: nat, size: int) -> Result<int, ManifestError>
    decreases n,
{
    if n == 0 {
        Ok(p)
    } else {
        match elements_end(s, p, (n - 1) as nat, size) {
            Ok(q) => advance(s.len() as int, q, size),
            Err(e) => Err(e),
        }
    }
}

/// A trailing list whose elements take `size` bytes, at `p`: its length,
/// the position of its first element and the position after it. A stream
/// that ends inside the list gives an empty list and leaves nothing to read.
pub open spec fn optional_list(s: Seq<u8>, p: int, size: int) -> Result<
    (nat, int, int),
    ManifestError,
> {
    match advance(s.len() as int, p, 8) {
        Ok(q) => match elements_end(s, q, u64_at(s, p) as nat, size) {
            Ok(r) => Ok((u64_at(s, p) as nat, q, r)),
            Err(ManifestError::UnexpectedEof) => Ok((0, q, s.len() as int)),
            Err(e) => Err(e),
        },
        Err(ManifestError::UnexpectedEof) => Ok((0, p, s.len() as int)),
        Err(e) => Err(e),
    }
}

/// Where the parts of the section lie: the slots in stream order, the
/// position of the fixed fields, and the two root lists.
pub open spec fn fields_layout(s: Seq<u8>) -> Result<
    (Seq<(u64, Seq<SerializableAccountStorageEntry>)>, int, (nat, int, int), (nat, int, int)),
    ManifestError,
> {
    match advance(s.len() as int, 0, 8) {
        Ok(p) => match groups(s, p, u64_at(s, 0) as nat) {
            Ok((gs, f)) => match advance(s.len() as int, f, FIXED_FIELDS_SIZE as int) {
                Ok(r) => match optional_list(s, r, 8) {
                    Ok(l1) => match optional_list(s, l1.2, 40) {
                        Ok(l2) => Ok((gs, f, l1, l2)),
                        Err(e) => Err(e),
                    },
                    Err(e) => Err(e),
                },
                Err(e) => Err(e),
            },
            Err(e) => Err(e),
        },
        Err(e) => Err(e),
    }
}

/// `x` holds the fixed fields encoded at `f`.
pub open spec fn decodes_fixed_fields(x: AccountsDbFields, s: Seq<u8>, f: int) -> bool {
    &&& x.write_version == u64_at(s, f)
    &&& x.slot == u64_at(s, f + 8)
    &&& x.bank_hash_info.hash@ == s.subrange(f + 16, f + 48)
    &&& x.bank_hash_info.snapshot_hash@ == s.subrange(f + 48, f + 80)
    &&& x.bank_hash_info.stats.num_updated_accounts == u64_at(s, f + 80)
    &&& x.bank_hash_info.stats.num_removed_accounts == u64_at(s, f + 88)
    &&& x.bank_hash_info.stats.num_lamports_stored == u64_at(s, f + 96)
    &&& x.bank_hash_info.stats.total_data_len == u64_at(s, f + 104)
    &&& x.bank_hash_info.stats.num_executable_accounts == u64_at(s, f + 112)
}

/// `roots` is the list of `n` slots whose elements start at `p`.
pub open spec fn decodes_roots(roots: Seq<u64>, s: Seq<u8>, n: nat, p: int) -> bool {
    roots == Seq::new(n, |j: int| u64_at(s, p + 8 * j))
}

/// `roots` is the list of `n` (slot, hash) pairs whose elements start at `p`.
pub open spec fn decodes_roots_with_hash(
    roots: Seq<(u64, HashBytes)>,
    s: Seq<u8>,
    n: nat,
    p: int,
) -> bool {
    &&& roots.len() == n
    &&& forall|j: int|
        0 <= j < n ==> {
            &&& (#[trigger] roots[j]).0 == u64_at(s, p + 40 * j)
            &&& roots[j].1@ == s.subrange(p + 40 * j + 8, p + 40 * j + 40)
        }
}

/// `x` is the section encoded at the start of `s`.
pub open spec fn decodes_fields(x: AccountsDbFields, s: Seq<u8>) -> bool {
    match fields_layout(s) {
        Ok((gs, f, l1, l2)) => {
            &&& storages_view(x.storages@) == storage_map(gs)
            &&& decodes_fixed_fields(x, s, f)
            &&& decodes_roots(x.historical_roots@, s, l1.0, l1.1)
            &&& decodes_roots_with_hash(x.historical_roots_with_hash@, s, l2.0, l2.1)
        },
        Err(_) => false,
    }
}

proof fn lemma_entries_err(s: Seq<u8>, p: int, m: nat, n: nat)
    requires
        m <= n,
        entries_end(s, p, m) is Err,
    ensures
        entries_end(s, p, n) == entries_end(s, p, m),
    decreases n,
{
    if m < n {
        lemma_entries_err(s, p, m, (n - 1) as nat);
    }
}

proof fn lemma_elements_err(s: Seq<u8>, p: int, m: nat, n: nat, size: int)
    requires
        m <= n,
        elements_end(s, p, m, size) is Err,
    ensures
        elements_end(s, p, n, size) == elements_end(s, p, m, size),
    decreases n,
{
    if m < n {
        lemma_elements_err(s, p, m, (n - 1) as nat, size);
    }
}

proof fn lemma_groups_err(s: Seq<u8>, p: int, m: nat, n: nat)
    requires
        m <= n,
        groups(s, p, m) is Err,
    ensures
        groups(s, p, n) == groups(s, p, m),
    decreases n,
{
    if m < n {
        lemma_groups_err(s, p, m, (n - 1) as nat);
    }
}

spec fn as_pos(r: Result<usize, ManifestError>) -> Result<int, ManifestError> {
    match r {
        Ok(q) => Ok(q as int),
        Err(e) => Err(e),
    }
}

fn advance_exec(len: usize, pos: usize, size: usize) -> (r: Result<usize, ManifestError>)
    requires
        pos <= len,
        size <= FIXED_FIELDS_SIZE,
    ensures
        as_pos(r) == advance(len as int, pos as int, size as int),
{
    if size as u64 > MAX_STREAM_SIZE || pos as u64 > MAX_STREAM_SIZE - size as u64 {
        Err(ManifestError::SizeLimit)
    } else if size > len - pos {
        Err(ManifestError::UnexpectedEof)
    } else {
        Ok(pos + size)
    }
}

fn decode_entries(s: &[u8], p: usize, n: u64) -> (r: Result<
    (Vec<SerializableAccountStorageEntry>, usize),
    ManifestError,
>)
    requires
        p <= s@.len(),
    ensures
        match r {
            Ok((v, q)) => {
                &&& entries_end(s@, p as int, n as nat) == Ok::<int, ManifestError>(q as int)
                &&& q <= s@.len()
                &&& v@ == Seq::new(n as nat, |j: int| entry_at(s@, p + 16 * j))
            },
            Err(e) => entries_end(s@, p as int, n as nat) == Err::<int, ManifestError>(e),
        },
{
    let len = s.len();
    let mut v: Vec<SerializableAccountStorageEntry> = Vec::new();
    let mut cur: usize = p;
    let mut j: u64 = 0;
    while j < n
        invariant
            j <= n,
            len == s@.len(),
            cur <= len,
            cur == p + 16 * j,
            entries_end(s@, p as int, j as nat) == Ok::<int, ManifestError>(cur as int),
            v@ == Seq::new(j as nat, |k: int| entry_at(s@, p + 16 * k)),
        decreases n - j,
    {
        let q = match advance_exec(len, cur, 16) {
            Ok(q) => q,
            Err(e) => {
                proof {
                    lemma_entries_err(s@, p as int, (j + 1) as nat, n as nat);
                }
                return Err(e);
            },
        };
        let id = read_u64(s, cur);
        let current_len = read_u64(s, cur + 8);
        if id > usize::MAX as u64 || current_len > usize::MAX as u64 {
            proof {
                lemma_entries_err(s@, p as int, (j + 1) as nat, n as nat);
            }
            return Err(ManifestError::InvalidValue);
        }
        v.push(
            SerializableAccountStorageEntry {
                id: id as usize,
                accounts_current_len: current_len as usize,
            },
        );
        assert(v@ =~= Seq::new((j + 1) as nat, |k: int| entry_at(s@, p + 16 * k)));
        cur = q;
        j = j + 1;
    }
    Ok((v, cur))
}

fn decode_storages(s: &[u8], p: usize, n: u64) -> (r: Result<
    (HashMap<u64, Vec<SerializableAccountStorageEntry>>, usize),
    ManifestError,
>)
    requires
        p <= s@.len(),
    ensures
        match r {
            Ok((m, q)) => {
                &&& groups(s@, p as int, n as nat) is Ok
                &&& groups(s@, p as int, n as nat)->Ok_0.1 == q
                &&& storages_view(m@) == storage_map(groups(s@, p as int, n as nat)->Ok_0.0)
                &&& q <= s@.len()
            },
            Err(e) => groups(s@, p as int, n as nat) == Err::<
                (Seq<(u64, Seq<SerializableAccountStorageEntry>)>, int),
                ManifestError,
            >(e),
        },
{
    let len = s.len();
    let mut m: HashMap<u64, Vec<SerializableAccountStorageEntry>> = HashMap::new();
    let mut cur: usize = p;
    let mut j: u64 = 0;
    let ghost mut gs: Seq<(u64, Seq<SerializableAccountStorageEntry>)> = Seq::empty();
    assert(storages_view(m@) =~= storage_map(gs));
    while j < n
        invariant
            j <= n,
            len == s@.len(),
            cur <= len,
            groups(s@, p as int, j as nat) == Ok::<
                (Seq<(u64, Seq<SerializableAccountStorageEntry>)>, int),
                ManifestError,
            >((gs, cur as int)),
            storages_view(m@) == storage_map(gs),
        decreases n - j,
    {
        let start = match advance_exec(len, cur, 16) {
            Ok(q) => q,
            Err(e) => {
                proof {
                    lemma_groups_err(s@, p as int, (j + 1) as nat, n as nat);
                }
                return Err(e);
            },
        };
        let slot = read_u64(s, cur);
        let count = read_u64(s, cur + 8);
        let (entries, next) = match decode_entries(s, start, count) {
            Ok(d) => d,
            Err(e) => {
                proof {
                    lemma_groups_err(s@, p as int, (j + 1) as nat, n as nat);
                }
                return Err(e);
            },
        };
        proof {
            assert(entries@ =~= group_entries(s@, cur as int));
            assert(storages_view(m@.insert(slot, entries)) =~= storage_map(gs).insert(
                slot,
                entries@,
            ));
            assert(gs.push((slot, entries@)).drop_last() =~= gs);
            gs = gs.push((slot, entries@));
        }
        m.insert(slot, entries);
        cur = next;
        j = j + 1;
    }
    Ok((m, cur))
}

fn decode_roots(s: &[u8], p: usize) -> (r: Result<(Vec<u64>, usize), ManifestError>)
    requires
        p <= s@.len(),
    ensures
        match r {
            Ok((v, q)) => {
                &&& optional_list(s@, p as int, 8) is Ok
                &&& optional_list(s@, p as int, 8)->Ok_0.2 == q
                &&& decodes_roots(
                    v@,
                    s@,
                    optional_list(s@, p as int, 8)->Ok_0.0,
                    optional_list(s@, p as int, 8)->Ok_0.1,
                )
                &&& q <= s@.len()
            },
            Err(e) => optional_list(s@, p as int, 8) == Err::<(nat, int, int), ManifestError>(e),
        },
{
    let len = s.len();
    let start = match advance_exec(len, p, 8) {
        Ok(q) => q,
        Err(ManifestError::UnexpectedEof) => {
            assert(Seq::<u64>::empty() =~= Seq::new(0nat, |j: int| u64_at(s@, p + 8 * j)));
            return Ok((Vec::new(), len));
        },
        Err(e) => return Err(e),
    };
    let n = read_u64(s, p);
    let mut v: Vec<u64> = Vec::new();
    let mut cur: usize = start;
    let mut j: u64 = 0;
    while j < n
        invariant
            j <= n,
            len == s@.len(),
            cur <= len,
            cur == start + 8 * j,
            n == u64_at(s@, p as int),
            start == p + 8,
            elements_end(s@, start as int, j as nat, 8) == Ok::<int, ManifestError>(cur as int),
            v@ == Seq::new(j as nat, |k: int| u64_at(s@, start + 8 * k)),
        decreases n - j,
    {
        let q = match advance_exec(len, cur, 8) {
            Ok(q) => q,
            Err(e) => {
                proof {
                    lemma_elements_err(s@, start as int, (j + 1) as nat, n as nat, 8);
                }
                if e == ManifestError::UnexpectedEof {
                    assert(Seq::<u64>::empty() =~= Seq::new(0nat, |k: int| u64_at(s@, start + 8 * k)));
                    return Ok((Vec::new(), len));
                }
                return Err(e);
            },
        };
        v.push(read_u64(s, cur));
        assert(v@ =~= Seq::new((j + 1) as nat, |k: int| u64_at(s@, start + 8 * k)));
        cur = q;
        j = j + 1;
    }
    Ok((v, cur))
}

fn decode_roots_with_hash(s: &[u8], p: usize) -> (r: Result<
    (Vec<(u64, HashBytes)>, usize),
    ManifestError,
>)
    requires
        p <= s@.len(),
    ensures
        match r {
            Ok((v, q)) => {
                &&& optional_list(s@, p as int, 40) is Ok
                &&& optional_list(s@, p as int, 40)->Ok_0.2 == q
                &&& decodes_roots_with_hash(
                    v@,
                    s@,
                    optional_list(s@, p as int, 40)->Ok_0.0,
                    optional_list(s@, p as int, 40)->Ok_0.1,
                )
                &&& q <= s@.len()
            },
            Err(e) => optional_list(s@, p as int, 40) == Err::<(nat, int, int), ManifestError>(e),
        },
{
    let len = s.len();
    let start = match advance_exec(len, p, 8) {
        Ok(q) => q,
        Err(ManifestError::UnexpectedEof) => {
            return Ok((Vec::new(), len));
        },
        Err(e) => return Err(e),
    };
    let n = read_u64(s, p);
    let mut v: Vec<(u64, HashBytes)> = Vec::new();
    let mut cur: usize = start;
    let mut j: u64 = 0;
    while j < n
        invariant
            j <= n,
            len == s@.len(),
            cur <= len,
            cur == start + 40 * j,
            n == u64_at(s@, p as int),
            start == p + 8,
            elements_end(s@, start as int, j as nat, 40) == Ok::<int, ManifestError>(cur as int),
            decodes_roots_with_hash(v@, s@, j as nat, start as int),
        decreases n - j,
    {
        let q = match advance_exec(len, cur, 40) {
            Ok(q) => q,
            Err(e) => {
                proof {
                    lemma_elements_err(s@, start as int, (j + 1) as nat, n as nat, 40);
                }
                if e == ManifestError::UnexpectedEof {
                    return Ok((Vec::new(), len));
                }
                return Err(e);
            },
        };
        let slot = read_u64(s, cur);
        let hash = read_bytes32(s, cur + 8);
        let ghost before = v@;
        v.push((slot, hash));
        assert forall|k: int| 0 <= k < j + 1 implies {
            &&& (#[trigger] v@[k]).0 == u64_at(s@, start + 40 * k)
            &&& v@[k].1@ == s@.subrange(start + 40 * k + 8, start + 40 * k + 40)
        } by {
            if k < j {
                assert(v@[k] == before[k]);
            }
        }
        cur = q;
        j = j + 1;
    }
    Ok((v, cur))
}

/// Decodes the accounts-database section at the start of `s`; bytes after
/// it are ignored.
pub fn deserialize_accounts_db_fields(s: &[u8]) -> (r: Result<AccountsDbFields, ManifestError>)
    ensures
        match r {
            Ok(x) => decodes_fields(x, s@),
            Err(e) => fields_layout(s@) is Err && fields_layout(s@)->Err_0 == e,
        },
{
    let len = s.len();
    let p = match advance_exec(len, 0, 8) {
        Ok(q) => q,
        Err(e) => return Err(e),
    };
    let n = read_u64(s, 0);
    let (storages, f) = match decode_storages(s, p, n) {
        Ok(d) => d,
        Err(e) => return Err(e),
    };
    let r = match advance_exec(len, f, FIXED_FIELDS_SIZE) {
        Ok(q) => q,
        Err(e) => return Err(e),
    };
    let bank_hash_info = BankHashInfo {
        hash: read_bytes32(s, f + 16),
        snapshot_hash: read_bytes32(s, f + 48),
        stats: BankHashStats {
            num_updated_accounts: read_u64(s, f + 80),
            num_removed_accounts: read_u64(s, f + 88),
            num_lamports_stored: read_u64(s, f + 96),
            total_data_len: read_u64(s, f + 104),
            num_executable_accounts: read_u64(s, f + 112),
        },
    };
    let write_version = read_u64(s, f);
    let slot = read_u64(s, f + 8);
    let (historical_roots, l1_end) = match decode_roots(s, r) {
        Ok(d) => d,
        Err(e) => return Err(e),
    };
    let (historical_roots_with_hash, _) = match decode_roots_with_hash(s, l1_end) {
        Ok(d) => d,
        Err(e) => return Err(e),
    };
    Ok(
        AccountsDbFields {
            storages,
            write_version,
            slot,
            bank_hash_info,
            historical_roots,
            historical_roots_with_hash,
        },
    )
}

} // verus!
