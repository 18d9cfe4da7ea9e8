use solana_snapshot_etl::append_vec::{AppendVec, SegmentError};
use solana_snapshot_etl::index::{build_index, AccountIndex, AccountIndexBuilder};
use solana_snapshot_etl::manifest::{
    deserialize_accounts_db_fields, ManifestError, SerializableAccountStorageEntry,
};
use solana_snapshot_etl::names::{find_manifest_name, parse_append_vec_name, parse_u64};
use solana_snapshot_etl::rpc::{
    find_account, resolve_transaction_config, validate_account_request, AccountEncoding,
    AccountInfoConfig, CommitmentLevel, DataSlice, HistoricalRpc, RequestError, TransactionConfig,
    TransactionConfigWrapper, TransactionEncoding,
};
use solana_snapshot_etl::unpacked::{locate_manifest, SnapshotError, UnpackedSnapshotExtractor};

fn record(out: &mut Vec<u8>, key: [u8; 32], lamports: u64, owner: [u8; 32], data: &[u8]) {
    while out.len() % 64 != 0 {
        out.push(0);
    }
    out.extend_from_slice(&1u64.to_le_bytes());
    out.extend_from_slice(&(data.len() as u64).to_le_bytes());
    out.extend_from_slice(&key);
    out.extend_from_slice(&lamports.to_le_bytes());
    out.extend_from_slice(&0u64.to_le_bytes());
    out.extend_from_slice(&owner);
    out.push(0);
    out.extend_from_slice(&[0u8; 7]);
    out.extend_from_slice(&[0u8; 32]);
    out.extend_from_slice(data);
}

fn segment(records: &[([u8; 32], u64)]) -> Vec<u8> {
    let mut out = Vec::new();
    for (key, lamports) in records {
        record(&mut out, *key, *lamports, [0xAA; 32], &[]);
    }
    while out.len() % 64 != 0 {
        out.push(0);
    }
    out
}

fn u64s(out: &mut Vec<u8>, values: &[u64]) {
    for v in values {
        out.extend_from_slice(&v.to_le_bytes());
    }
}

/// The accounts-database section: slots with their (id, length) pairs, then
/// the fixed fields, then optionally the two root lists.
fn section(storages: &[(u64, Vec<(u64, u64)>)], slot: u64, with_roots: bool) -> Vec<u8> {
    let mut out = Vec::new();
    u64s(&mut out, &[storages.len() as u64]);
    for (s, entries) in storages {
        u64s(&mut out, &[*s, entries.len() as u64]);
        for (id, len) in entries {
            u64s(&mut out, &[*id, *len]);
        }
    }
    u64s(&mut out, &[77, slot]);
    out.extend_from_slice(&[1u8; 32]);
    out.extend_from_slice(&[2u8; 32]);
    u64s(&mut out, &[10, 20, 30, 40, 50]);
    if with_roots {
        u64s(&mut out, &[2, 98, 99]);
        u64s(&mut out, &[1, 99]);
        out.extend_from_slice(&[3u8; 32]);
    }
    out
}

fn base64_config() -> Option<AccountInfoConfig> {
    Some(AccountInfoConfig {
        encoding: Some(AccountEncoding::Base64),
        data_slice: None,
        min_context_slot: None,
    })
}

#[test]
fn parses_decimal_numerals() {
    assert_eq!(parse_u64(b"0"), Some(0));
    assert_eq!(parse_u64(b"12345"), Some(12345));
    assert_eq!(parse_u64(b"+7"), Some(7));
    assert_eq!(parse_u64(b"18446744073709551615"), Some(u64::MAX));
    assert_eq!(parse_u64(b"18446744073709551616"), None);
    assert_eq!(parse_u64(b""), None);
    assert_eq!(parse_u64(b"+"), None);
    assert_eq!(parse_u64(b"-1"), None);
    assert_eq!(parse_u64(b"1a"), None);
    assert_eq!(parse_u64(b" 1"), None);
}

#[test]
fn parses_segment_file_names() {
    assert_eq!(parse_append_vec_name("100.7"), Some((100, 7)));
    assert_eq!(parse_append_vec_name("0.0"), Some((0, 0)));
    assert_eq!(parse_append_vec_name("100"), None);
    assert_eq!(parse_append_vec_name("100."), None);
    assert_eq!(parse_append_vec_name(".7"), None);
    assert_eq!(parse_append_vec_name("1.2.3"), None);
    assert_eq!(parse_append_vec_name("abc.7"), None);
    assert_eq!(parse_append_vec_name("status_cache"), None);
}

#[test]
fn manifest_is_first_integer_entry() {
    assert_eq!(find_manifest_name(&["status_cache", "100", "200"]), Some(1));
    assert_eq!(find_manifest_name(&["status_cache", "x1"]), None);
    assert_eq!(locate_manifest(true, &["status_cache", "100"]), Ok(1));
    assert_eq!(locate_manifest(false, &["100"]), Err(SnapshotError::MissingStatusCache));
    assert_eq!(locate_manifest(true, &["status_cache"]), Err(SnapshotError::MissingManifest));
}

#[test]
fn decodes_accounts_db_section() {
    let mut bytes = section(&[(100, vec![(7, 4096), (8, 64)]), (90, vec![])], 100, true);
    bytes.extend_from_slice(&[0xFF; 5]);
    let f = deserialize_accounts_db_fields(&bytes).unwrap();
    assert_eq!(f.slot, 100);
    assert_eq!(f.write_version, 77);
    assert_eq!(f.bank_hash_info.hash, [1u8; 32]);
    assert_eq!(f.bank_hash_info.snapshot_hash, [2u8; 32]);
    assert_eq!(f.bank_hash_info.stats.num_updated_accounts, 10);
    assert_eq!(f.bank_hash_info.stats.num_executable_accounts, 50);
    assert_eq!(f.storages.len(), 2);
    assert_eq!(
        f.storages.get(&100).unwrap(),
        &vec![
            SerializableAccountStorageEntry { id: 7, accounts_current_len: 4096 },
            SerializableAccountStorageEntry { id: 8, accounts_current_len: 64 },
        ]
    );
    assert_eq!(f.storages.get(&90).unwrap().len(), 0);
    assert_eq!(f.historical_roots, vec![98, 99]);
    assert_eq!(f.historical_roots_with_hash, vec![(99, [3u8; 32])]);
}

#[test]
fn absent_root_lists_default_to_empty() {
    let bytes = section(&[(5, vec![(1, 64)])], 5, false);
    let f = deserialize_accounts_db_fields(&bytes).unwrap();
    assert!(f.historical_roots.is_empty());
    assert!(f.historical_roots_with_hash.is_empty());
    let mut cut = section(&[(5, vec![(1, 64)])], 5, true);
    cut.truncate(cut.len() - 30);
    let f = deserialize_accounts_db_fields(&cut).unwrap();
    assert_eq!(f.historical_roots, vec![98, 99]);
    assert!(f.historical_roots_with_hash.is_empty());
}

#[test]
fn truncated_section_is_an_error() {
    let bytes = section(&[(5, vec![(1, 64)])], 5, false);
    for cut in [0usize, 7, 8, 20, 40, bytes.len() - 1] {
        assert_eq!(
            deserialize_accounts_db_fields(&bytes[..cut]).err(),
            Some(ManifestError::UnexpectedEof),
            "cut at {}",
            cut
        );
    }
}

#[test]
fn slot_listed_twice_keeps_its_last_segments() {
    let bytes = section(&[(5, vec![(1, 64)]), (5, vec![(2, 128)])], 5, false);
    let f = deserialize_accounts_db_fields(&bytes).unwrap();
    assert_eq!(f.storages.len(), 1);
    assert_eq!(
        f.storages.get(&5).unwrap(),
        &vec![SerializableAccountStorageEntry { id: 2, accounts_current_len: 128 }]
    );
}

#[test]
fn open_segment_checks_the_manifest() {
    let data = segment(&[([1; 32], 5)]);
    let bytes = section(&[(100, vec![(7, data.len() as u64)]), (101, vec![(1, 1 << 20)])], 100, true);
    let x = UnpackedSnapshotExtractor::from_manifest("/snap".to_string(), 100, &bytes).unwrap();
    assert_eq!(x.slot(), 100);
    assert_eq!(x.root(), "/snap");
    assert_eq!(
        x.known_vec(100, 7),
        Some(SerializableAccountStorageEntry { id: 7, accounts_current_len: data.len() })
    );
    assert_eq!(x.known_vec(100, 8), None);
    assert_eq!(
        x.open_append_vec(100, 8, &data).err(),
        Some(SnapshotError::UnexpectedSegment { slot: 100, id: 8 })
    );
    assert_eq!(
        x.open_append_vec(99, 7, &data).err(),
        Some(SnapshotError::UnexpectedSegment { slot: 99, id: 7 })
    );
    assert_eq!(
        x.open_append_vec(101, 1, &data).err(),
        Some(SnapshotError::Segment(SegmentError::LenExceedsFileSize {
            current_len: 1 << 20,
            file_size: data.len()
        }))
    );
    let seg = x.open_append_vec(100, 7, &data).unwrap();
    assert_eq!((seg.slot(), seg.id(), seg.len()), (100, 7, data.len()));
}

#[test]
fn undecodable_manifest_fails_to_open() {
    let r = UnpackedSnapshotExtractor::from_manifest("/snap".to_string(), 1, &[1, 2, 3]);
    assert_eq!(r.err(), Some(SnapshotError::Manifest(ManifestError::UnexpectedEof)));
}

#[test]
fn newer_slot_wins_in_either_order() {
    let a = segment(&[([1; 32], 5)]);
    let b = segment(&[([1; 32], 9)]);
    let s5 = AppendVec::new(&a, a.len(), 5, 1).unwrap();
    let s9 = AppendVec::new(&b, b.len(), 9, 2).unwrap();
    let forward = build_index(&[AppendVec::new(&a, a.len(), 5, 1).unwrap(), AppendVec::new(&b, b.len(), 9, 2).unwrap()], 4);
    let backward = build_index(&[s9, s5], 4);
    assert_eq!(forward.get(&[1; 32]), Some((9, 2)));
    assert_eq!(backward.get(&[1; 32]), Some((9, 2)));
    assert_eq!(forward.len(), 1);
}

#[test]
fn same_slot_first_seen_wins() {
    let a = segment(&[([1; 32], 5)]);
    let b = segment(&[([1; 32], 6)]);
    let first = build_index(&[AppendVec::new(&a, a.len(), 7, 3).unwrap(), AppendVec::new(&b, b.len(), 7, 1).unwrap()], 4);
    assert_eq!(first.get(&[1; 32]), Some((7, 3)));
    let other = build_index(&[AppendVec::new(&b, b.len(), 7, 1).unwrap(), AppendVec::new(&a, a.len(), 7, 3).unwrap()], 4);
    assert_eq!(other.get(&[1; 32]), Some((7, 1)));
}

#[test]
fn same_segment_duplicate_keeps_first() {
    let a = segment(&[([1; 32], 5), ([1; 32], 6)]);
    let idx = build_index(&[AppendVec::new(&a, a.len(), 7, 3).unwrap()], 0);
    assert_eq!(idx.get(&[1; 32]), Some((7, 3)));
    assert_eq!(idx.len(), 1);
}

#[test]
fn rebuilding_gives_the_same_index() {
    let a = segment(&[([1; 32], 5), ([2; 32], 6)]);
    let b = segment(&[([2; 32], 7), ([3; 32], 8)]);
    let build = || {
        build_index(
            &[AppendVec::new(&a, a.len(), 4, 1).unwrap(), AppendVec::new(&b, b.len(), 3, 2).unwrap()],
            8,
        )
    };
    let x = build();
    let y = build();
    assert_eq!(x.len(), 3);
    assert_eq!(y.len(), 3);
    for k in 0u8..5 {
        assert_eq!(x.get(&[k; 32]), y.get(&[k; 32]));
    }
    assert_eq!(x.get(&[2; 32]), Some((4, 1)));
    assert_eq!(x.get(&[3; 32]), Some((3, 2)));
}

#[test]
fn builder_counts_records_and_identities() {
    let a = segment(&[([1; 32], 5), ([2; 32], 6)]);
    let b = segment(&[([2; 32], 7), ([3; 32], 8), ([1; 32], 1)]);
    let mut builder = AccountIndexBuilder::new(16);
    assert_eq!(builder.records_scanned(), 0);
    builder.add_segment(&AppendVec::new(&a, a.len(), 1, 1).unwrap());
    assert_eq!((builder.records_scanned(), builder.unique_accounts()), (2, 2));
    builder.add_segment(&AppendVec::new(&b, b.len(), 2, 1).unwrap());
    assert_eq!((builder.records_scanned(), builder.unique_accounts()), (5, 3));
    let idx = builder.finish();
    assert_eq!(idx.get(&[1; 32]), Some((2, 1)));
}

#[test]
fn index_update_reports_new_identities() {
    let mut idx = AccountIndex::with_capacity(2);
    assert!(idx.update([1; 32], 5, 1));
    assert!(!idx.update([1; 32], 4, 2));
    assert_eq!(idx.get(&[1; 32]), Some((5, 1)));
    assert!(!idx.update([1; 32], 6, 3));
    assert_eq!(idx.get(&[1; 32]), Some((6, 3)));
    assert_eq!(idx.get(&[2; 32]), None);
}

#[test]
fn rejects_unsupported_encodings() {
    for enc in [
        None,
        Some(AccountEncoding::Binary),
        Some(AccountEncoding::Base58),
        Some(AccountEncoding::JsonParsed),
        Some(AccountEncoding::Base64Zstd),
    ] {
        let config = Some(AccountInfoConfig { encoding: enc, data_slice: None, min_context_slot: None });
        assert_eq!(
            validate_account_request(config, 100),
            Err(RequestError::UnsupportedEncoding { received: enc })
        );
    }
    assert_eq!(
        validate_account_request(None, 100),
        Err(RequestError::UnsupportedEncoding { received: None })
    );
    assert_eq!(validate_account_request(base64_config(), 100), Ok(()));
}

#[test]
fn rejects_data_slices_and_unreached_slots() {
    let slice = DataSlice { offset: 1, length: 2 };
    let config = Some(AccountInfoConfig {
        encoding: Some(AccountEncoding::Base64),
        data_slice: Some(slice),
        min_context_slot: None,
    });
    assert_eq!(
        validate_account_request(config, 100),
        Err(RequestError::DataSliceUnsupported { received: slice })
    );
    let config = Some(AccountInfoConfig {
        encoding: Some(AccountEncoding::Base64),
        data_slice: None,
        min_context_slot: Some(101),
    });
    assert_eq!(
        validate_account_request(config, 100),
        Err(RequestError::MinContextSlotNotReached { requested: 101, highest: 100 })
    );
    let config = Some(AccountInfoConfig {
        encoding: Some(AccountEncoding::Base64),
        data_slice: None,
        min_context_slot: Some(100),
    });
    assert_eq!(validate_account_request(config, 100), Ok(()));
}

#[test]
fn transaction_config_defaults_to_base64() {
    let default = TransactionConfig {
        encoding: Some(TransactionEncoding::Base64),
        commitment: None,
        max_supported_transaction_version: Some(1),
    };
    assert_eq!(resolve_transaction_config(None), default);
    assert_eq!(resolve_transaction_config(Some(TransactionConfigWrapper::Current(None))), default);
    assert_eq!(
        resolve_transaction_config(Some(TransactionConfigWrapper::Deprecated(Some(TransactionEncoding::Json)))),
        default
    );
    let given = TransactionConfig {
        encoding: Some(TransactionEncoding::Json),
        commitment: Some(CommitmentLevel::Finalized),
        max_supported_transaction_version: None,
    };
    assert_eq!(resolve_transaction_config(Some(TransactionConfigWrapper::Current(Some(given)))), given);
}

fn two_account_snapshot() -> (Vec<u8>, Vec<u8>) {
    let mut data = Vec::new();
    record(&mut data, [0xA1; 32], 1000, [0x0A; 32], b"alpha");
    record(&mut data, [0xB2; 32], 2000, [0x0B; 32], b"beta-data");
    while data.len() % 64 != 0 {
        data.push(0);
    }
    let manifest = section(&[(100, vec![(7, data.len() as u64)])], 100, true);
    (data, manifest)
}

#[test]
fn end_to_end_lookup() {
    let (data, manifest) = two_account_snapshot();
    assert_eq!(locate_manifest(true, &["status_cache", "100"]), Ok(1));
    let extractor = UnpackedSnapshotExtractor::from_manifest("/snap".to_string(), 100, &manifest).unwrap();
    assert_eq!(extractor.slot(), 100);
    let (slot, id) = parse_append_vec_name("100.7").unwrap();
    let seg = extractor.open_append_vec(slot, id, &data).unwrap();
    let mut builder = AccountIndexBuilder::new(4);
    builder.add_segment(&seg);
    assert_eq!(builder.records_scanned(), 2);
    let index = builder.finish();
    assert_eq!(index.len(), 2);
    assert_eq!(index.get(&[0xA1; 32]), Some((100, 7)));
    assert_eq!(index.get(&[0xB2; 32]), Some((100, 7)));

    let rpc = HistoricalRpc::new(extractor, index, None);
    assert_eq!(rpc.slot(), 100);
    for (key, lamports, owner, bytes) in [
        ([0xA1u8; 32], 1000u64, [0x0Au8; 32], &b"alpha"[..]),
        ([0xB2u8; 32], 2000u64, [0x0Bu8; 32], &b"beta-data"[..]),
    ] {
        let (s, i) = rpc.get_account_info(&key, base64_config()).unwrap().unwrap();
        let seg = rpc.extractor().open_append_vec(s, i, &data).unwrap();
        let account = find_account(&seg, &key).unwrap();
        assert_eq!(account.lamports, lamports);
        assert_eq!(account.owner, owner);
        assert_eq!(account.data, bytes.to_vec());
    }
    assert_eq!(rpc.get_account_info(&[0xC3; 32], base64_config()), Ok(None));
    assert!(find_account(&seg, &[0xC3; 32]).is_none());
}

#[test]
fn bad_encoding_rejected_for_known_and_unknown_keys() {
    let (data, manifest) = two_account_snapshot();
    let extractor = UnpackedSnapshotExtractor::from_manifest("/snap".to_string(), 100, &manifest).unwrap();
    let seg = extractor.open_append_vec(100, 7, &data).unwrap();
    let index = build_index(&[seg], 4);
    let rpc = HistoricalRpc::new(extractor, index, None);
    let config = Some(AccountInfoConfig {
        encoding: Some(AccountEncoding::JsonParsed),
        data_slice: None,
        min_context_slot: None,
    });
    let expected = Err(RequestError::UnsupportedEncoding { received: Some(AccountEncoding::JsonParsed) });
    assert_eq!(rpc.get_account_info(&[0xA1; 32], config), expected);
    assert_eq!(rpc.get_account_info(&[0xC3; 32], config), expected);
}

#[test]
fn unreached_min_slot_rejected_for_known_and_unknown_keys() {
    let (data, manifest) = two_account_snapshot();
    let extractor = UnpackedSnapshotExtractor::from_manifest("/snap".to_string(), 100, &manifest).unwrap();
    let seg = extractor.open_append_vec(100, 7, &data).unwrap();
    let index = build_index(&[seg], 4);
    let rpc = HistoricalRpc::new(extractor, index, Some("http://localhost:8899".to_string()));
    let config = Some(AccountInfoConfig {
        encoding: Some(AccountEncoding::Base64),
        data_slice: None,
        min_context_slot: Some(101),
    });
    let expected = Err(RequestError::MinContextSlotNotReached { requested: 101, highest: 100 });
    assert_eq!(rpc.get_account_info(&[0xA1; 32], config), expected);
    assert_eq!(rpc.get_account_info(&[0xC3; 32], config), expected);
}

#[test]
fn transaction_requests_need_a_configured_service() {
    let (data, manifest) = two_account_snapshot();
    let extractor = UnpackedSnapshotExtractor::from_manifest("/snap".to_string(), 100, &manifest).unwrap();
    let seg = extractor.open_append_vec(100, 7, &data).unwrap();
    let index = build_index(&[seg], 4);
    let rpc = HistoricalRpc::new(extractor, index, None);
    assert_eq!(rpc.get_transaction(None), Err(RequestError::TransactionRpcNotConfigured));
    assert_eq!(rpc.transaction_rpc(), None);
}

#[test]
fn rescanning_the_same_segments_changes_nothing() {
    let a = segment(&[([1; 32], 5), ([2; 32], 6)]);
    let b = segment(&[([2; 32], 7), ([1; 32], 8)]);
    let sa = AppendVec::new(&a, a.len(), 4, 1).unwrap();
    let sb = AppendVec::new(&b, b.len(), 4, 2).unwrap();
    let mut builder = AccountIndexBuilder::new(8);
    builder.add_segment(&sa);
    builder.add_segment(&sb);
    let mut again = AccountIndexBuilder::new(8);
    again.add_segment(&sa);
    again.add_segment(&sb);
    again.add_segment(&sa);
    again.add_segment(&sb);
    assert_eq!(again.records_scanned(), 8);
    let first = builder.finish();
    let second = again.finish();
    assert_eq!(first.len(), second.len());
    for k in 0u8..4 {
        assert_eq!(first.get(&[k; 32]), second.get(&[k; 32]));
    }
    assert_eq!(first.get(&[1; 32]), Some((4, 1)));
}
