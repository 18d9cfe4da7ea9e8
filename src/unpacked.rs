//! A snapshot unpacked into a directory: its manifest and its segments.
use crate::append_vec::{sanitize_result, AppendVec, SegmentError};
use crate::manifest::{
    decodes_fields, deserialize_accounts_db_fields, fields_layout, storages_view,
    AccountsDbFields, ManifestError, SerializableAccountStorageEntry,
};
use crate::names::{decimal_u64, find_manifest_name, is_first_numeral};
use vstd::prelude::*;
use vstd::string::StringSliceAdditionalSpecFns;

verus! {

broadcast use vstd::std_specs::hash::group_hash_axioms;

/// Why a snapshot, or one of its segments, could not be opened.
#[derive(Clone, Copy, Debug, PartialEq, Eq, Structural)]
pub enum SnapshotError {
    /// `snapshots/` holds no status-cache file.
    MissingStatusCache,
    /// `snapshots/` holds no entry named by a plain integer.
    MissingManifest,
    /// The accounts-database section of the manifest does not decode.
    Manifest(ManifestError),
    /// A segment file that the manifest does not declare.
    UnexpectedSegment { slot: u64, id: u64 },
    /// A declared segment whose file fails validation.
    Segment(SegmentError),
}

/// Checks the entries of `snapshots/`: the status-cache file must be
/// present, and the manifest is the first entry named by a plain integer.
pub fn locate_manifest(status_cache_present: bool, names: &[&str]) -> (r: Result<usize, SnapshotError>)
    ensures
        !status_cache_present ==> r == Err::<usize, SnapshotError>(SnapshotError::MissingStatusCache),
        status_cache_present ==> match r {
            Ok(i) => is_first_numeral(names@, i as int),
            Err(e) => {
                &&& e == SnapshotError::MissingManifest
                &&& forall|j: int|
                    0 <= j < names@.len() ==> decimal_u64(#[trigger] names@[j].spec_bytes()) is None
            },
        },
{
    if !status_cache_present {
        return Err(SnapshotError::MissingStatusCache);
    }
    match find_manifest_name(names) {
        Some(i) => Ok(i),
        None => Err(SnapshotError::MissingManifest),
    }
}

/// The first entry with the given id.
pub open spec fn first_with_id(es: Seq<SerializableAccountStorageEntry>, id: u64) -> Option<
    SerializableAccountStorageEntry,
>
    decreases es.len(),
{
    if es.len() == 0 {
        None
    } else if es[0].id == id {
        Some(es[0])
    } else {
        first_with_id(es.drop_first(), id)
    }
}

/// The entry that a registry declares for segment `(slot, id)`.
pub open spec fn declared_entry(
    storages: Map<u64, Seq<SerializableAccountStorageEntry>>,
    slot: u64,
    id: u64,
) -> Option<SerializableAccountStorageEntry> {
    if storages.contains_key(slot) {
        first_with_id(storages[slot], id)
    } else {
        None
    }
}

/// Extracts account data from a snapshot unpacked into a directory. Only the
/// snapshot's slot and its segment registry are kept from the manifest.
pub struct UnpackedSnapshotExtractor {
    root: String,
    slot: u64,
    accounts_db_fields: AccountsDbFields,
}

impl UnpackedSnapshotExtractor {
    /// The segments the manifest declares, per slot.
    pub closed spec fn storages(&self) -> Map<u64, Seq<SerializableAccountStorageEntry>> {
        storages_view(self.accounts_db_fields.storages@)
    }

    /// The snapshot's slot.
    pub closed spec fn spec_slot(&self) -> u64 {
        self.slot
    }

    /// The snapshot's root directory.
    pub closed spec fn spec_root(&self) -> Seq<char> {
        self.root@
    }

    /// Opens the snapshot at `root` from what its manifest holds: the slot of
    /// the bank state, and the accounts-database section that follows it.
    pub fn from_manifest(root: String, slot: u64, accounts_db_section: &[u8]) -> (r: Result<
        UnpackedSnapshotExtractor,
        SnapshotError,
    >)
        ensures
            match r {
                Ok(x) => {
                    &&& x.spec_slot() == slot
                    &&& x.spec_root() == root@
                    &&& exists|f: AccountsDbFields|
                        decodes_fields(f, accounts_db_section@) && x.storages() == storages_view(
                            f.storages@,
                        )
                },
                Err(e) => fields_layout(accounts_db_section@) is Err && e == SnapshotError::Manifest(
                    fields_layout(accounts_db_section@)->Err_0,
                ),
            },
    {
        match deserialize_accounts_db_fields(accounts_db_section) {
            Ok(accounts_db_fields) => Ok(UnpackedSnapshotExtractor { root, slot, accounts_db_fields }),
            Err(e) => Err(SnapshotError::Manifest(e)),
        }
    }

    /// The snapshot's root directory.
    pub fn root(&self) -> (r: &str)
        ensures
            r@ == self.spec_root(),
    {
        self.root.as_str()
    }

    /// The snapshot's slot.
    pub fn slot(&self) -> (r: u64)
        ensures
            r == self.spec_slot(),
    {
        self.slot
    }

    /// The manifest's entry for segment `(slot, id)`.
    pub fn known_vec(&self, slot: u64, id: u64) -> (r: Option<SerializableAccountStorageEntry>)
        ensures
            r == declared_entry(self.storages(), slot, id),
    {
        let entries = match self.accounts_db_fields.storages.get(&slot) {
            Some(v) => v,
            None => return None,
        };
        assert(self.storages()[slot] == entries@);
        assert(entries@.subrange(0, entries@.len() as int) =~= entries@);
        let mut i: usize = 0;
        while i < entries.len()
            invariant
                i <= entries@.len(),
                self.storages().contains_key(slot),
                self.storages()[slot] == entries@,
                first_with_id(entries@, id) == first_with_id(
                    entries@.subrange(i as int, entries@.len() as int),
                    id,
                ),
            decreases entries@.len() - i,
        {
            let e = entries[i];
            assert(entries@.subrange(i as int, entries@.len() as int).drop_first() =~= entries@.subrange(
                i + 1,
                entries@.len() as int,
            ));
            if e.id as u64 == id {
                return Some(e);
            }
            i = i + 1;
        }
        None
    }

    /// Opens segment `(slot, id)` over the mapped bytes of its file, with
    /// the length the manifest declares for it.
    pub fn open_append_vec<'a>(&self, slot: u64, id: u64, map: &'a [u8]) -> (r: Result<
        AppendVec<'a>,
        SnapshotError,
    >)
        ensures
            match declared_entry(self.storages(), slot, id) {
                None => r == Err::<AppendVec, SnapshotError>(
                    SnapshotError::UnexpectedSegment { slot, id },
                ),
                Some(e) => match sanitize_result(e.accounts_current_len, map@.len() as usize) {
                    Ok(_) => r matches Ok(v) && v.bytes() == map@ && v.spec_len()
                        == e.accounts_current_len && v.spec_slot() == slot && v.spec_id() == id,
                    Err(se) => r == Err::<AppendVec, SnapshotError>(SnapshotError::Segment(se)),
                },
            },
    {
        let known = match self.known_vec(slot, id) {
            Some(e) => e,
            None => return Err(SnapshotError::UnexpectedSegment { slot, id }),
        };
        match AppendVec::new(map, known.accounts_current_len, slot, id) {
            Ok(v) => Ok(v),
            Err(e) => Err(SnapshotError::Segment(e)),
        }
    }
}

} // verus!
