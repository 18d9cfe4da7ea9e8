//! The historical query service: request validation and account lookup.
//!
//! The service answers point lookups over a finished index. Reading the
//! segment file a lookup lands in, and the transport, are left to the
//! caller; this module decides what each request gets.
use crate::append_vec::{record_end, Account, AppendVec};
use crate::index::{AccountIndex, LocationMap};
use crate::layout::{u64_at, Pubkey};
use crate::records::{append_vec_iter, record_offsets};
use crate::unpacked::UnpackedSnapshotExtractor;
use vstd::prelude::*;

verus! {

/// How account data is encoded in a response.
#[derive(Clone, Copy, Debug, PartialEq, Eq, Structural)]
pub enum AccountEncoding {
    Binary,
    Base58,
    Base64,
    JsonParsed,
    Base64Zstd,
}

/// A requested slice of account data.
#[derive(Clone, Copy, Debug, PartialEq, Eq, Structural)]
pub struct DataSlice {
    pub offset: usize,
    pub length: usize,
}

/// The options of an account lookup.
#[derive(Clone, Copy, Debug, PartialEq, Eq, Structural)]
pub struct AccountInfoConfig {
    pub encoding: Option<AccountEncoding>,
    pub data_slice: Option<DataSlice>,
    pub min_context_slot: Option<u64>,
}

/// How transaction details are encoded in a response.
#[derive(Clone, Copy, Debug, PartialEq, Eq, Structural)]
pub enum TransactionEncoding {
    Binary,
    Base64,
    Base58,
    Json,
    JsonParsed,
}

/// The commitment a request asks for.
#[derive(Clone, Copy, Debug, PartialEq, Eq, Structural)]
pub enum CommitmentLevel {
    Processed,
    Confirmed,
    Finalized,
}

/// The options of a transaction request, as forwarded.
#[derive(Clone, Copy, Debug, PartialEq, Eq, Structural)]
pub struct TransactionConfig {
    pub encoding: Option<TransactionEncoding>,
    pub commitment: Option<CommitmentLevel>,
    pub max_supported_transaction_version: Option<u8>,
}

/// The options of a transaction request, in either of the accepted forms.
#[derive(Clone, Copy, Debug, PartialEq, Eq, Structural)]
pub enum TransactionConfigWrapper {
    /// The older form: an encoding alone.
    Deprecated(Option<TransactionEncoding>),
    /// The current form.
    Current(Option<TransactionConfig>),
}

/// Why a request is rejected.
#[derive(Clone, Copy, Debug, PartialEq, Eq, Structural)]
pub enum RequestError {
    /// Account data is only served in base64.
    UnsupportedEncoding { received: Option<AccountEncoding> },
    /// Slices of account data are not served.
    DataSliceUnsupported { received: DataSlice },
    /// The snapshot's slot is below the requested minimum.
    MinContextSlotNotReached { requested: u64, highest: u64 },
    /// No service to forward transaction requests to was configured.
    TransactionRpcNotConfigured,
}

/// The options that an absent configuration stands for.
pub open spec fn config_or_default(config: Option<AccountInfoConfig>) -> AccountInfoConfig {
    match config {
        Some(c) => c,
        None => AccountInfoConfig { encoding: None, data_slice: None, min_context_slot: None },
    }
}

/// The outcome of validating lookup options against the snapshot's slot.
pub open spec fn account_request_check(config: Option<AccountInfoConfig>, slot: u64) -> Result<
    (),
    RequestError,
> {
    let c = config_or_default(config);
    let min = match c.min_context_slot {
        Some(m) => m,
        None => 0,
    };
    if c.encoding != Some(AccountEncoding::Base64) {
        Err(RequestError::UnsupportedEncoding { received: c.encoding })
    } else if c.data_slice is Some {
        Err(RequestError::DataSliceUnsupported { received: c.data_slice->Some_0 })
    } else if min > slot {
        Err(RequestError::MinContextSlotNotReached { requested: min, highest: slot })
    } else {
        Ok(())
    }
}

/// What a lookup of `key` gets: a rejection, or the location of the key's
/// state (`None` when the key is not indexed).
pub open spec fn account_info_result(
    index: LocationMap,
    slot: u64,
    key: Seq<u8>,
    config: Option<AccountInfoConfig>,
) -> Result<Option<(u64, u64)>, RequestError> {
    match account_request_check(config, slot) {
        Err(e) => Err(e),
        Ok(_) => Ok(
            if index.contains_key(key) {
                Some(index[key])
            } else {
                None
            },
        ),
    }
}

/// Validates lookup options against the snapshot's slot: the encoding must
/// be base64, no data slice may be asked for, and the requested minimum
/// slot (0 when absent) must not exceed the snapshot's.
pub fn validate_account_request(config: Option<AccountInfoConfig>, slot: u64) -> (r: Result<
    (),
    RequestError,
>)
    ensures
        r == account_request_check(config, slot),
{
    let c = match config {
        Some(c) => c,
        None => AccountInfoConfig { encoding: None, data_slice: None, min_context_slot: None },
    };
    let min = match c.min_context_slot {
        Some(m) => m,
        None => 0,
    };
    let base64 = match c.encoding {
        Some(AccountEncoding::Base64) => true,
        _ => false,
    };
    if !base64 {
        return Err(RequestError::UnsupportedEncoding { received: c.encoding });
    }
    if let Some(s) = c.data_slice {
        return Err(RequestError::DataSliceUnsupported { received: s });
    }
    if min > slot {
        return Err(RequestError::MinContextSlotNotReached { requested: min, highest: slot });
    }
    Ok(())
}

/// The options that a transaction request is forwarded with: those of the
/// current form when given, else base64 with versions up to 1.
pub open spec fn transaction_config_spec(config: Option<TransactionConfigWrapper>) -> TransactionConfig {
    match config {
        Some(TransactionConfigWrapper::Current(Some(c))) => c,
        _ => TransactionConfig {
            encoding: Some(TransactionEncoding::Base64),
            commitment: None,
            max_supported_transaction_version: Some(1),
        },
    }
}

/// The options that a transaction request is forwarded with.
pub fn resolve_transaction_config(config: Option<TransactionConfigWrapper>) -> (r: TransactionConfig)
    ensures
        r == transaction_config_spec(config),
{
    match config {
        Some(TransactionConfigWrapper::Current(Some(c))) => c,
        _ => TransactionConfig {
            encoding: Some(TransactionEncoding::Base64),
            commitment: None,
            max_supported_transaction_version: Some(1),
        },
    }
}

/// `acc` is the account state stored in the record at `o`.
pub open spec fn holds_account(acc: Account, bytes: Seq<u8>, o: int) -> bool {
    &&& acc.lamports == u64_at(bytes, o + 48)
    &&& acc.rent_epoch == u64_at(bytes, o + 56)
    &&& acc.owner@ == bytes.subrange(o + 64, o + 96)
    &&& acc.executable == (bytes[o + 96] != 0)
    &&& acc.data@ == bytes.subrange(o + 136, record_end(bytes, o))
}

/// The identity stored in the record at `o`.
pub open spec fn key_at(bytes: Seq<u8>, o: int) -> Seq<u8> {
    bytes.subrange(o + 16, o + 48)
}

/// Record `i` of the walk `offs` is the first one of `key`.
pub open spec fn is_first_record_of(offs: Seq<int>, bytes: Seq<u8>, key: Seq<u8>, i: int) -> bool {
    &&& 0 <= i < offs.len()
    &&& key_at(bytes, offs[i]) == key
    &&& forall|j: int| 0 <= j < i ==> key_at(bytes, #[trigger] offs[j]) != key
}

fn keys_equal(a: &Pubkey, b: &Pubkey) -> (r: bool)
    ensures
        r == (a@ == b@),
{
    let mut i: usize = 0;
    while i < 32
        invariant
            i <= 32,
            a@.len() == 32,
            b@.len() == 32,
            forall|j: int| 0 <= j < i ==> a@[j] == b@[j],
        decreases 32 - i,
    {
        if a[i] != b[i] {
            return false;
        }
        i = i + 1;
    }
    assert(a@ =~= b@);
    true
}

/// Scans the records of `seg` from its start for the first one of `key`
/// and copies its state.
pub fn find_account(seg: &AppendVec, key: &Pubkey) -> (r: Option<Account>)
    ensures
        ({
            let offs = record_offsets(seg.bytes(), seg.spec_len() as int, 0);
            &&& r is None <==> forall|j: int|
                0 <= j < offs.len() ==> key_at(seg.bytes(), #[trigger] offs[j]) != key@
            &&& r matches Some(acc) ==> exists|i: int|
                #[trigger] is_first_record_of(offs, seg.bytes(), key@, i) && holds_account(
                    acc,
                    seg.bytes(),
                    offs[i],
                )
        }),
{
    let ghost bytes = seg.bytes();
    let ghost offs = record_offsets(bytes, seg.spec_len() as int, 0);
    let ghost mut done: nat = 0;
    let mut it = append_vec_iter(seg);
    loop
        invariant
            it.segment() == *seg,
            bytes == seg.bytes(),
            offs == record_offsets(bytes, seg.spec_len() as int, 0),
            done <= offs.len(),
            it.remaining() == offs.subrange(done as int, offs.len() as int),
            forall|j: int| 0 <= j < done ==> key_at(bytes, #[trigger] offs[j]) != key@,
        decreases it.remaining().len(),
    {
        let ghost before = it.remaining();
        match it.next() {
            None => {
                assert(done == offs.len());
                return None;
            },
            Some(h) => {
                let rec = match seg.get_account(h.offset()) {
                    Some((rec, _)) => rec,
                    None => {
                        assert(false);
                        return None;
                    },
                };
                assert(offs[done as int] == before[0]);
                if keys_equal(&rec.meta.pubkey, key) {
                    let acc = rec.clone_account();
                    assert(is_first_record_of(offs, bytes, key@, done as int));
                    return Some(acc);
                }
                proof {
                    assert(it.remaining() =~= offs.subrange(done + 1int, offs.len() as int));
                    done = done + 1;
                }
            },
        }
    }
}

/// The query service: the snapshot, its finished index, and where
/// transaction requests are forwarded, if anywhere.
pub struct HistoricalRpc {
    extractor: UnpackedSnapshotExtractor,
    account_index: AccountIndex,
    transaction_rpc: Option<String>,
}

impl HistoricalRpc {
    /// The service over a snapshot and the index built from it.
    pub fn new(
        extractor: UnpackedSnapshotExtractor,
        account_index: AccountIndex,
        transaction_rpc: Option<String>,
    ) -> (r: HistoricalRpc)
        ensures
            r.index() == account_index@,
            r.spec_slot() == extractor.spec_slot(),
            r.snapshot() == extractor,
            r.has_transaction_rpc() == transaction_rpc is Some,
            r.transaction_rpc_url() == match transaction_rpc {
                Some(url) => Some(url@),
                None => None::<Seq<char>>,
            },
    {
        HistoricalRpc { extractor, account_index, transaction_rpc }
    }

    /// What the index holds.
    pub closed spec fn index(&self) -> LocationMap {
        self.account_index@
    }

    /// The snapshot's slot.
    pub closed spec fn spec_slot(&self) -> u64 {
        self.extractor.spec_slot()
    }

    /// The snapshot the service reads.
    pub closed spec fn snapshot(&self) -> UnpackedSnapshotExtractor {
        self.extractor
    }

    /// Where transaction requests are forwarded, if anywhere.
    pub closed spec fn transaction_rpc_url(&self) -> Option<Seq<char>> {
        match self.transaction_rpc {
            Some(url) => Some(url@),
            None => None,
        }
    }

    /// A service to forward transaction requests to was configured.
    pub closed spec fn has_transaction_rpc(&self) -> bool {
        self.transaction_rpc is Some
    }

    /// The snapshot's slot, which every response carries.
    pub fn slot(&self) -> (r: u64)
        ensures
            r == self.spec_slot(),
    {
        self.extractor.slot()
    }

    /// The snapshot the service reads.
    pub fn extractor(&self) -> (r: &UnpackedSnapshotExtractor)
        ensures
            *r == self.snapshot(),
    {
        &self.extractor
    }

    /// The address transaction requests are forwarded to.
    pub fn transaction_rpc(&self) -> (r: Option<&str>)
        ensures
            r is Some == self.has_transaction_rpc(),
            r matches Some(url) ==> self.transaction_rpc_url() == Some(url@),
    {
        match &self.transaction_rpc {
            Some(url) => Some(url.as_str()),
            None => None,
        }
    }

    /// The (slot, segment id) the index holds for `key`.
    pub fn locate(&self, key: &Pubkey) -> (r: Option<(u64, u64)>)
        ensures
            r == (if self.index().contains_key(key@) {
                Some(self.index()[key@])
            } else {
                None
            }),
    {
        self.account_index.get(key)
    }

    /// Decides a lookup of `key`: the options are validated before the index
    /// is consulted; then the location of the key's state, or `None` when
    /// the key is not indexed.
    pub fn get_account_info(&self, key: &Pubkey, config: Option<AccountInfoConfig>) -> (r: Result<
        Option<(u64, u64)>,
        RequestError,
    >)
        ensures
            r == account_info_result(self.index(), self.spec_slot(), key@, config),
    {
        match validate_account_request(config, self.slot()) {
            Err(e) => Err(e),
            Ok(()) => Ok(self.locate(key)),
        }
    }

    /// Decides a transaction request: rejected when no service to forward
    /// to was configured, else forwarded with the options given.
    pub fn get_transaction(&self, config: Option<TransactionConfigWrapper>) -> (r: Result<
        TransactionConfig,
        RequestError,
    >)
        ensures
            !self.has_transaction_rpc() ==> r == Err::<TransactionConfig, RequestError>(
                RequestError::TransactionRpcNotConfigured,
            ),
            self.has_transaction_rpc() ==> r == Ok::<TransactionConfig, RequestError>(
                transaction_config_spec(config),
            ),
    {
        if self.transaction_rpc.is_none() {
            return Err(RequestError::TransactionRpcNotConfigured);
        }
        Ok(resolve_transaction_config(config))
    }
}

/// A lookup whose encoding is not base64 is rejected, whatever the index
/// holds and whichever key is asked for.
pub proof fn lemma_unsupported_encoding_rejected(
    index: LocationMap,
    slot: u64,
    key: Seq<u8>,
    config: Option<AccountInfoConfig>,
)
    requires
        config_or_default(config).encoding != Some(AccountEncoding::Base64),
    ensures
        account_info_result(index, slot, key, config) == Err::<Option<(u64, u64)>, RequestError>(
            RequestError::UnsupportedEncoding { received: config_or_default(config).encoding },
        ),
{
}

/// A lookup whose minimum slot exceeds the snapshot's is rejected, whatever
/// the index holds and whichever key is asked for.
pub proof fn lemma_min_context_slot_rejected(
    index: LocationMap,
    slot: u64,
    key: Seq<u8>,
    config: Option<AccountInfoConfig>,
)
    requires
        config_or_default(config).min_context_slot matches Some(m) && m > slot,
    ensures
        account_info_result(index, slot, key, config) is Err,
        account_info_result(index, slot, key, config) == account_info_result(
            Map::empty(),
            slot,
            Seq::empty(),
            config,
        ),
{
}

} // verus!
