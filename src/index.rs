//! The identity-to-location index and the freshness policy that builds it.
use crate::append_vec::{record_fits, AppendVec};
use crate::layout::Pubkey;
use crate::records::{append_vec_iter, record_offsets};
use vstd::prelude::*;

verus! {

/// The largest number of identities an index is asked to hold. Below it
/// the table's allocation size cannot overflow.
pub const MAX_INDEX_LEN: usize = usize::MAX / 256;

/// Identity bytes to (slot, segment id).
pub type LocationMap = Map<Seq<u8>, (u64, u64)>;

/// A record seen while scanning: the identity's bytes, the slot and the id
/// of the segment that holds it.
pub type Observation = (Seq<u8>, u64, u64);

/// The index after one record is applied: an identity not seen before, or
/// seen only at an older slot, now points at the record's segment; one seen
/// at the same or a newer slot keeps its location.
pub open spec fn apply_record(m: Map<Seq<u8>, (u64, u64)>, obs: Observation) -> Map<
    Seq<u8>,
    (u64, u64),
> {
    if m.contains_key(obs.0) && m[obs.0].0 >= obs.1 {
        m
    } else {
        m.insert(obs.0, (obs.1, obs.2))
    }
}

/// The index after the records `obs` are applied to `m` in order.
pub open spec fn index_from(m: Map<Seq<u8>, (u64, u64)>, obs: Seq<Observation>) -> Map<
    Seq<u8>,
    (u64, u64),
>
    decreases obs.len(),
{
    if obs.len() == 0 {
        m
    } else {
        apply_record(index_from(m, obs.drop_last()), obs.last())
    }
}

/// The index that a scan meeting the records `obs` in order builds.
pub open spec fn index_of(obs: Seq<Observation>) -> Map<Seq<u8>, (u64, u64)> {
    index_from(Map::empty(), obs)
}

/// The records of a segment, in the order a walk from its start meets them.
pub open spec fn segment_records(seg: AppendVec) -> Seq<Observation> {
    record_offsets(seg.bytes(), seg.spec_len() as int, 0).map_values(
        |o: int| (seg.bytes().subrange(o + 16, o + 48), seg.spec_slot(), seg.spec_id()),
    )
}

/// The records of several segments, segment after segment.
pub open spec fn all_records(segs: Seq<AppendVec>) -> Seq<Observation>
    decreases segs.len(),
{
    if segs.len() == 0 {
        Seq::empty()
    } else {
        all_records(segs.drop_last()) + segment_records(segs.last())
    }
}

proof fn lemma_apply_record_len(m: LocationMap, obs: Observation)
    requires
        m.dom().finite(),
    ensures
        apply_record(m, obs).dom().finite(),
        apply_record(m, obs).len() <= m.len() + 1,
{
    if !(m.contains_key(obs.0) && m[obs.0].0 >= obs.1) {
        if m.contains_key(obs.0) {
            assert(m.insert(obs.0, (obs.1, obs.2)).dom() =~= m.dom());
        }
    }
}

proof fn lemma_record_count(bytes: Seq<u8>, len: int, offset: int)
    requires
        0 <= offset,
    ensures
        record_offsets(bytes, len, offset).len() <= if offset <= len {
            len - offset
        } else {
            0
        },
    decreases
            if offset <= len {
                len - offset + 1
            } else {
                0
            },
{
    if record_fits(bytes, len, offset) && offset < crate::append_vec::record_next(bytes, offset) {
        lemma_record_count(bytes, len, crate::append_vec::record_next(bytes, offset));
    }
}

/// Map from account identity to the (slot, segment id) of its most recent
/// known state. It holds a `hashbrown::HashMap`, hidden from the verifier:
/// `index_entries` names what the map holds, and the four functions below,
/// one per `hashbrown` method called, state each operation over that name.
#[verifier::external_body]
pub struct AccountIndex {
    map: hashbrown::HashMap<Pubkey, (u64, u64)>,
}

/// What an account index holds, keyed by the identity's bytes.
pub uninterp spec fn index_entries(index: AccountIndex) -> Map<Seq<u8>, (u64, u64)>;

/// Relies on `hashbrown::HashMap::with_capacity`: the new map is empty. It
/// panics only when the table size for `capacity` overflows.
#[verifier::external_body]
fn map_with_capacity(capacity: usize) -> (r: AccountIndex)
    requires
        capacity <= MAX_INDEX_LEN,
    ensures
        index_entries(r) == LocationMap::empty(),
{
    AccountIndex { map: hashbrown::HashMap::with_capacity(capacity) }
}

/// Relies on `hashbrown::HashMap::get`: the value stored under the key, if
/// any.
#[verifier::external_body]
fn map_get(index: &AccountIndex, key: &Pubkey) -> (r: Option<(u64, u64)>)
    ensures
        r is Some <==> index_entries(*index).contains_key(key@),
        r matches Some(v) ==> v == index_entries(*index)[key@],
{
    index.map.get(key).copied()
}

/// Relies on `hashbrown::HashMap::insert`: afterwards the key maps to the
/// value and every other key keeps its value. It panics only when growing
/// the table overflows its size.
#[verifier::external_body]
fn map_insert(index: &mut AccountIndex, key: Pubkey, value: (u64, u64))
    requires
        index_entries(*old(index)).len() < MAX_INDEX_LEN,
    ensures
        index_entries(*final(index)) == index_entries(*old(index)).insert(key@, value),
{
    index.map.insert(key, value);
}

/// Relies on `hashbrown::HashMap::len`: the number of keys stored.
#[verifier::external_body]
fn map_len(index: &AccountIndex) -> (r: usize)
    ensures
        r == index_entries(*index).len(),
{
    index.map.len()
}

impl View for AccountIndex {
    type V = Map<Seq<u8>, (u64, u64)>;

    open spec fn view(&self) -> Map<Seq<u8>, (u64, u64)> {
        index_entries(*self)
    }
}

impl AccountIndex {
    /// An empty index with room for `capacity` identities.
    pub fn with_capacity(capacity: usize) -> (r: AccountIndex)
        requires
            capacity <= MAX_INDEX_LEN,
        ensures
            r@ == Map::<Seq<u8>, (u64, u64)>::empty(),
    {
        map_with_capacity(capacity)
    }

    /// The (slot, segment id) recorded for `key`, if any.
    pub fn get(&self, key: &Pubkey) -> (r: Option<(u64, u64)>)
        ensures
            r == (if self@.contains_key(key@) {
                Some(self@[key@])
            } else {
                None
            }),
    {
        map_get(self, key)
    }

    /// The number of identities in the index.
    pub fn len(&self) -> (r: usize)
        ensures
            r == self@.len(),
    {
        map_len(self)
    }

    /// Applies one record under the freshness policy; true when the identity
    /// was not in the index before.
    pub fn update(&mut self, key: Pubkey, slot: u64, id: u64) -> (r: bool)
        requires
            old(self)@.len() < MAX_INDEX_LEN,
        ensures
            final(self)@ == apply_record(old(self)@, (key@, slot, id)),
            r == !old(self)@.contains_key(key@),
    {
        match map_get(self, &key) {
            None => {
                map_insert(self, key, (slot, id));
                true
            },
            Some((stored_slot, _)) => {
                if stored_slot < slot {
                    map_insert(self, key, (slot, id));
                }
                false
            },
        }
    }
}

/// Builds an account index one segment at a time, counting the records
/// scanned.
pub struct AccountIndexBuilder {
    index: AccountIndex,
    records_scanned: u64,
    observed: Ghost<Seq<Observation>>,
}

impl AccountIndexBuilder {
    /// The index is the one that the records applied so far build, and the
    /// counter counts them.
    pub closed spec fn wf(&self) -> bool {
        &&& self.index@ == index_of(self.observed@)
        &&& self.index@.dom().finite()
        &&& self.records_scanned == if self.observed@.len() <= u64::MAX {
            self.observed@.len()
        } else {
            u64::MAX as nat
        }
    }

    /// The records applied so far, in order.
    pub closed spec fn observed(&self) -> Seq<Observation> {
        self.observed@
    }

    /// A builder that has seen no record, whose index has room for
    /// `capacity` identities.
    pub fn new(capacity: usize) -> (r: AccountIndexBuilder)
        requires
            capacity <= MAX_INDEX_LEN,
        ensures
            r.wf(),
            r.observed() == Seq::<Observation>::empty(),
    {
        AccountIndexBuilder {
            index: AccountIndex::with_capacity(capacity),
            records_scanned: 0,
            observed: Ghost(Seq::empty()),
        }
    }

    /// The number of records applied so far (saturating).
    pub fn records_scanned(&self) -> (r: u64)
        requires
            self.wf(),
        ensures
            r == if self.observed().len() <= u64::MAX {
                self.observed().len()
            } else {
                u64::MAX as nat
            },
    {
        self.records_scanned
    }

    /// The number of distinct identities found so far.
    pub fn unique_accounts(&self) -> (r: usize)
        requires
            self.wf(),
        ensures
            r == index_of(self.observed()).len(),
    {
        self.index.len()
    }

    /// Applies every record of `seg`, in the order of the walk from its
    /// start.
    pub fn add_segment(&mut self, seg: &AppendVec)
        requires
            old(self).wf(),
            index_of(old(self).observed()).len() + seg.spec_len() < MAX_INDEX_LEN,
        ensures
            final(self).wf(),
            final(self).observed() == old(self).observed() + segment_records(*seg),
            index_of(final(self).observed()).len() <= index_of(old(self).observed()).len()
                + seg.spec_len(),
    {
        let slot = seg.slot();
        let id = seg.id();
        let ghost bytes = seg.bytes();
        let ghost len = seg.spec_len() as int;
        let ghost all = record_offsets(bytes, len, 0);
        let ghost start = self.observed@;
        let ghost start_len = self.index@.len();
        proof {
            lemma_record_count(bytes, len, 0);
        }
        let ghost mut done: Seq<int> = Seq::empty();
        let mut it = append_vec_iter(seg);
        loop
            invariant
                it.segment() == *seg,
                done + it.remaining() == all,
                self.observed@ == start + done.map_values(
                    |o: int| (bytes.subrange(o + 16, o + 48), slot, id),
                ),
                self.wf(),
                self.index@.len() <= start_len + done.len(),
                start_len + all.len() < MAX_INDEX_LEN,
                all.len() <= len,
                bytes == seg.bytes(),
                len == seg.spec_len(),
                slot == seg.spec_slot(),
                id == seg.spec_id(),
            ensures
                done == all,
                self.observed@ == start + done.map_values(
                    |o: int| (bytes.subrange(o + 16, o + 48), slot, id),
                ),
                self.wf(),
                self.index@.len() <= start_len + all.len(),
            decreases it.remaining().len(),
        {
            let ghost before = it.remaining();
            match it.next() {
                None => {
                    assert(done =~= all);
                    break;
                },
                Some(h) => {
                    let off = h.offset();
                    let rec = match seg.get_account(off) {
                        Some((rec, _)) => rec,
                        None => {
                            assert(false);
                            break;
                        },
                    };
                    let key = rec.meta.pubkey;
                    assert(done.len() + it.remaining().len() + 1 == all.len()) by {
                        assert((done + before).len() == all.len());
                    }
                    let ghost idx_before = self.index@;
                    self.index.update(key, slot, id);
                    proof {
                        lemma_apply_record_len(idx_before, (key@, slot, id));
                    }
                    if self.records_scanned < u64::MAX {
                        self.records_scanned = self.records_scanned + 1;
                    }
                    proof {
                        let o = before[0];
                        let ob = (bytes.subrange(o + 16, o + 48), slot, id);
                        assert(key@ == bytes.subrange(o + 16, o + 48));
                        assert(done.push(o) + it.remaining() =~= all) by {
                            assert(before =~= seq![o] + before.drop_first());
                        }
                        assert(done.push(o).map_values(
                            |o: int| (bytes.subrange(o + 16, o + 48), slot, id),
                        ) =~= done.map_values(
                            |o: int| (bytes.subrange(o + 16, o + 48), slot, id),
                        ).push(ob));
                        let observed = self.observed@;
                        assert((observed.push(ob)).drop_last() =~= observed);
                        self.observed = Ghost(observed.push(ob));
                        done = done.push(o);
                    }
                },
            }
        }
        proof {
            assert(done.map_values(|o: int| (bytes.subrange(o + 16, o + 48), slot, id))
                =~= segment_records(*seg));
        }
    }

    /// The finished index.
    pub fn finish(self) -> (r: AccountIndex)
        requires
            self.wf(),
        ensures
            r@ == index_of(self.observed()),
    {
        self.index
    }
}

/// Record `i` of `obs` is the first record of `key` at the highest slot that
/// any record of `key` has.
pub open spec fn is_freshest(obs: Seq<Observation>, key: Seq<u8>, i: int) -> bool {
    &&& 0 <= i < obs.len()
    &&& obs[i].0 == key
    &&& forall|j: int| 0 <= j < obs.len() && (#[trigger] obs[j]).0 == key ==> obs[j].1 <= obs[i].1
    &&& forall|j: int| 0 <= j < i && (#[trigger] obs[j]).0 == key ==> obs[j].1 < obs[i].1
}

/// Freshness policy: an identity is indexed exactly when some record of it
/// was seen, and then it points at the segment of the first record seen at
/// its highest slot. So the newest slot wins whatever the order of the
/// records, and among records at one slot the first one seen wins.
pub proof fn lemma_index_freshness(obs: Seq<Observation>, key: Seq<u8>)
    ensures
        index_of(obs).contains_key(key) <==> exists|i: int|
            0 <= i < obs.len() && (#[trigger] obs[i]).0 == key,
        index_of(obs).contains_key(key) ==> exists|i: int|
            #[trigger] is_freshest(obs, key, i) && index_of(obs)[key] == (obs[i].1, obs[i].2),
    decreases obs.len(),
{
    if obs.len() > 0 {
        let prev = obs.drop_last();
        let last = obs.last();
        let n = obs.len() - 1;
        lemma_index_freshness(prev, key);
        let m = index_of(prev);
        assert(index_of(obs) == apply_record(m, last));
        assert forall|j: int| 0 <= j < n implies #[trigger] obs[j] == prev[j] by {}
        if last.0 != key {
            if m.contains_key(key) {
                let i = choose|i: int| #[trigger] is_freshest(prev, key, i) && m[key] == (prev[i].1, prev[i].2);
                assert(obs[i] == prev[i]);
                assert(is_freshest(obs, key, i));
            }
            if exists|i: int| 0 <= i < obs.len() && (#[trigger] obs[i]).0 == key {
                let i = choose|i: int| 0 <= i < obs.len() && (#[trigger] obs[i]).0 == key;
                assert(prev[i].0 == key);
            }
        } else {
            assert(obs[n].0 == key);
            if m.contains_key(key) && m[key].0 >= last.1 {
                let i = choose|i: int| #[trigger] is_freshest(prev, key, i) && m[key] == (prev[i].1, prev[i].2);
                assert(obs[i] == prev[i]);
                assert(is_freshest(obs, key, i));
            } else {
                assert forall|j: int| 0 <= j < obs.len() && (#[trigger] obs[j]).0 == key implies obs[j].1
                    <= obs[n].1 && (j < n ==> obs[j].1 < obs[n].1) by {
                    if j < n {
                        assert(prev[j].0 == key);
                        let i = choose|i: int| #[trigger] is_freshest(prev, key, i) && m[key] == (prev[i].1, prev[i].2);
                        assert(prev[j].1 <= prev[i].1);
                    }
                }
                assert(is_freshest(obs, key, n));
            }
        }
    }
}

proof fn lemma_reapply_prefix(obs: Seq<Observation>, k: int)
    requires
        0 <= k <= obs.len(),
    ensures
        index_from(index_of(obs), obs.subrange(0, k)) == index_of(obs),
    decreases k,
{
    if k > 0 {
        lemma_reapply_prefix(obs, k - 1);
        let r = obs[k - 1];
        assert(obs.subrange(0, k).drop_last() =~= obs.subrange(0, k - 1));
        lemma_index_freshness(obs, r.0);
        assert(index_of(obs).contains_key(r.0));
        let i = choose|i: int| #[trigger] is_freshest(obs, r.0, i) && index_of(obs)[r.0] == (obs[i].1, obs[i].2);
        assert(obs[k - 1].1 <= obs[i].1);
    }
}

/// Applying the records of a scan again to the index that the scan built
/// leaves the index unchanged.
pub proof fn lemma_rescan_idempotent(obs: Seq<Observation>)
    ensures
        index_from(index_of(obs), obs) == index_of(obs),
{
    lemma_reapply_prefix(obs, obs.len() as int);
    assert(obs.subrange(0, obs.len() as int) =~= obs);
}

/// Building the index twice over the same segments, met in the same order,
/// gives the same mapping.
pub proof fn lemma_rebuild_identical(a: AccountIndex, b: AccountIndex, segs: Seq<AppendVec>)
    requires
        a@ == index_of(all_records(segs)),
        b@ == index_of(all_records(segs)),
    ensures
        a@ == b@,
{
}

proof fn lemma_total_len_prefix(segs: Seq<AppendVec>, k: int)
    requires
        0 <= k <= segs.len(),
    ensures
        total_len(segs.subrange(0, k)) <= total_len(segs),
    decreases segs.len() - k,
{
    if k < segs.len() {
        lemma_total_len_prefix(segs, k + 1);
        assert(segs.subrange(0, k + 1).drop_last() =~= segs.subrange(0, k));
    } else {
        assert(segs.subrange(0, k) =~= segs);
    }
}

/// The summed declared lengths of `segs`.
pub open spec fn total_len(segs: Seq<AppendVec>) -> int
    decreases segs.len(),
{
    if segs.len() == 0 {
        0
    } else {
        total_len(segs.drop_last()) + segs.last().spec_len()
    }
}

/// Builds the index over `segments`, scanned in the order given.
pub fn build_index(segments: &[AppendVec], capacity: usize) -> (r: AccountIndex)
    requires
        capacity <= MAX_INDEX_LEN,
        total_len(segments@) < MAX_INDEX_LEN,
    ensures
        r@ == index_of(all_records(segments@)),
{
    let mut builder = AccountIndexBuilder::new(capacity);
    let mut i: usize = 0;
    assert(segments@.subrange(0, 0) =~= Seq::<AppendVec>::empty());
    while i < segments.len()
        invariant
            i <= segments@.len(),
            builder.wf(),
            builder.observed() == all_records(segments@.subrange(0, i as int)),
            index_of(builder.observed()).len() <= total_len(segments@.subrange(0, i as int)),
            total_len(segments@) < MAX_INDEX_LEN,
        decreases segments@.len() - i,
    {
        proof {
            lemma_total_len_prefix(segments@, i + 1);
            assert(segments@.subrange(0, i + 1).drop_last() =~= segments@.subrange(0, i as int));
        }
        builder.add_segment(&segments[i]);
        assert(segments@.subrange(0, i + 1).drop_last() =~= segments@.subrange(0, i as int));
        i = i + 1;
    }
    assert(segments@.subrange(0, i as int) =~= segments@);
    builder.finish()
}

} // verus!
