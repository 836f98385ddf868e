use partstore::connector::Connector;
use partstore::connector::FlakyConnector;
use partstore::connector::MemConnector;
use partstore::errors::IoFailure;
use partstore::errors::LoadError;
use partstore::errors::StoreError;
use partstore::naming::Format;
use partstore::naming::Part;
use partstore::naming::format_of;
use partstore::naming::part_key;
use partstore::parts::CachePart;
use partstore::parts::DataPart;
use partstore::parts::DescrPart;
use partstore::parts::Layer2Part;
use partstore::provider::FsContainer;
use partstore::provider::OpendalContainer;
use partstore::provider::OpendalOperator;
use partstore::provider::StoreBackendConfig;
use partstore::provider::StoreProvider;
use partstore::wallet::Wallet;

fn descr(text: &[u8]) -> DescrPart {
    DescrPart::with_text(text.to_vec()).expect("descriptor text must be one line")
}

fn sample_wallet() -> Wallet {
    Wallet::with(
        descr(b"[d1/86h/1h/0h]tpubD1"),
        DataPart { count: 3 },
        CachePart { balance: 42 },
        Layer2Part::NoLayer2,
    )
}

fn fresh_fs(root: &[u8]) -> FsContainer<MemConnector> {
    FsContainer::new(MemConnector::new(), root.to_vec())
}

fn fresh_remote(user_id: &[u8], attempts: u64) -> OpendalContainer<MemConnector> {
    let operator = OpendalOperator::new(MemConnector::new(), attempts);
    OpendalContainer::make_container(operator, user_id.to_vec())
}

#[test]
fn codec_rule_is_fixed() {
    assert_eq!(format_of(Part::Descr), Format::Toml);
    assert_eq!(format_of(Part::Data), Format::Toml);
    assert_eq!(format_of(Part::Cache), Format::Yaml);
    assert_eq!(format_of(Part::Layer2), Format::Yaml);
}

#[test]
fn part_keys_follow_naming_convention() {
    assert_eq!(part_key(b"r", Part::Descr), b"r/descr.toml".to_vec());
    assert_eq!(part_key(b"r", Part::Data), b"r/data.toml".to_vec());
    assert_eq!(part_key(b"r", Part::Cache), b"r/cache.yaml".to_vec());
    assert_eq!(part_key(b"r", Part::Layer2), b"r/layer2.yaml".to_vec());
    assert_eq!(part_key(b"u1", Part::Descr), b"u1/descr.toml".to_vec());
}

#[test]
fn data_part_has_exact_canonical_form() {
    let b = DataPart { count: 3 }.to_bytes().unwrap();
    assert_eq!(b, b"count = 0x0000000000000003\n".to_vec());
}

#[test]
fn cache_part_has_exact_canonical_form() {
    let b = CachePart { balance: 42 }.to_bytes().unwrap();
    assert_eq!(b, b"balance: 0x000000000000002a\n".to_vec());
}

#[test]
fn descr_part_has_exact_canonical_form() {
    let b = descr(b"abc").to_bytes().unwrap();
    assert_eq!(b, b"descr = abc\n".to_vec());
}

#[test]
fn layer2_parts_have_exact_canonical_forms() {
    let none = Layer2Part::NoLayer2.to_bytes().unwrap();
    assert_eq!(none, b"layer2: none\n".to_vec());
    let some = Layer2Part::Layer2 {
        descr: descr(b"xy"),
        data: DataPart { count: 1 },
        cache: CachePart { balance: 2 },
    };
    let expected =
        b"layer2: some\ndescr = xy\ncount = 0x0000000000000001\nbalance: 0x0000000000000002\n";
    assert_eq!(some.to_bytes().unwrap(), expected.to_vec());
}

#[test]
fn decoders_accept_exactly_the_canonical_forms() {
    let d = DataPart::from_bytes(b"count = 0x0000000000000003\n").unwrap();
    assert_eq!(d.count, 3);
    assert!(DataPart::from_bytes(b"count = 0x03\n").is_none());
    assert!(DataPart::from_bytes(b"count = 3\n").is_none());
    assert!(DataPart::from_bytes(b"count = 0x00000000000000zz\n").is_none());
    assert!(DataPart::from_bytes(b"").is_none());
    let c = CachePart::from_bytes(b"balance: 0x000000000000002a\n").unwrap();
    assert_eq!(c.balance, 42);
    assert!(CachePart::from_bytes(b"balance: 42\n").is_none());
    let v = DescrPart::from_bytes(b"descr = abc\n").unwrap();
    assert_eq!(v.descr, b"abc".to_vec());
    assert!(DescrPart::from_bytes(b"descr = ab\nc\n").is_none());
    assert!(DescrPart::from_bytes(b"descr = abc").is_none());
    assert!(matches!(Layer2Part::from_bytes(b"layer2: none\n"), Some(Layer2Part::NoLayer2)));
    assert!(Layer2Part::from_bytes(b"layer2: maybe\n").is_none());
}

#[test]
fn descriptor_with_line_break_is_rejected() {
    assert!(DescrPart::with_text(b"ab\ncd".to_vec()).is_none());
}

#[test]
fn part_roundtrip_on_local_backend() {
    let mut fs = fresh_fs(b"root");
    let d0 = descr(b"wpkh(k1)");
    fs.store(&d0).unwrap();
    fs.store(&DataPart { count: 7 }).unwrap();
    fs.store(&CachePart { balance: 9 }).unwrap();
    fs.store(&Layer2Part::NoLayer2).unwrap();
    let d: DescrPart = fs.load().unwrap();
    assert_eq!(d.descr, b"wpkh(k1)".to_vec());
    let da: DataPart = fs.load().unwrap();
    assert_eq!(da.count, 7);
    let c: CachePart = fs.load().unwrap();
    assert_eq!(c.balance, 9);
    let l2: Layer2Part = fs.load().unwrap();
    assert!(matches!(l2, Layer2Part::NoLayer2));
}

#[test]
fn part_roundtrip_on_remote_backend() {
    let mut remote = fresh_remote(b"u1", 3);
    let l0 = Layer2Part::Layer2 {
        descr: descr(b"aux"),
        data: DataPart { count: 5 },
        cache: CachePart { balance: 6 },
    };
    remote.store(&l0).unwrap();
    let l2: Layer2Part = remote.load().unwrap();
    match l2 {
        Layer2Part::Layer2 { descr: d, data, cache } => {
            assert_eq!(d.descr, b"aux".to_vec());
            assert_eq!(data.count, 5);
            assert_eq!(cache.balance, 6);
        }
        Layer2Part::NoLayer2 => panic!("extension lost in the round trip"),
    }
}

#[test]
fn wallet_roundtrip_stores_and_reloads_all_parts() {
    let mut fs = fresh_fs(b"fresh");
    let w = sample_wallet();
    fs.store_wallet(&w).unwrap();
    let loaded = fs.load_wallet().unwrap();
    assert_eq!(loaded.data().count, 3);
    assert_eq!(loaded.cache().balance, 42);
    assert_eq!(loaded.descr().descr, w.descr().descr);
    assert!(matches!(loaded.layer2(), Layer2Part::NoLayer2));
}

#[test]
fn format_is_stable_across_backends() {
    // Store through the local synchronous backend, then point the remote
    // backend at the same store and prefix: it must reconstruct an equal
    // wallet, and the other way round.
    let mut fs = fresh_fs(b"shared");
    let w = sample_wallet();
    fs.store_wallet(&w).unwrap();
    let conn = fs.into_conn();
    let mut remote = OpendalContainer::make_container(
        OpendalOperator::new(conn, 3),
        b"shared".to_vec(),
    );
    let loaded = remote.load_wallet().unwrap();
    assert_eq!(loaded.data().count, 3);
    assert_eq!(loaded.cache().balance, 42);
    assert_eq!(loaded.descr().descr, w.descr().descr);
    assert!(matches!(loaded.layer2(), Layer2Part::NoLayer2));

    let mut remote2 = fresh_remote(b"back", 2);
    remote2.store_wallet(&w).unwrap();
    let conn2 = remote2.into_operator().into_conn();
    let mut fs2 = FsContainer::new(conn2, b"back".to_vec());
    let loaded2 = fs2.load_wallet().unwrap();
    assert_eq!(loaded2.data().count, 3);
    assert_eq!(loaded2.cache().balance, 42);
}

#[test]
fn serialized_stores_never_interleave() {
    // Two stores of the same part under exclusive access: the stored bytes
    // are exactly the second value's canonical form, never a mixture.
    let mut fs = fresh_fs(b"x");
    fs.store(&DataPart { count: 1 }).unwrap();
    fs.store(&DataPart { count: 2 }).unwrap();
    let conn = fs.into_conn();
    let stored = conn.get(b"x/data.toml").unwrap();
    let first = DataPart { count: 1 }.to_bytes().unwrap();
    let second = DataPart { count: 2 }.to_bytes().unwrap();
    assert_eq!(stored, second);
    assert!(stored == first || stored == second);
}

#[test]
fn retry_masks_transient_failures_below_budget() {
    // Two transient faults, budget of three attempts: store and load both
    // succeed and the value is correct.
    let mem = MemConnector::new();
    let flaky = FlakyConnector::with_failures(mem, 2);
    let mut remote = OpendalContainer::make_container(
        OpendalOperator::new(flaky, 3),
        b"u1".to_vec(),
    );
    remote.store(&DataPart { count: 11 }).unwrap();
    let da: DataPart = remote.load().unwrap();
    assert_eq!(da.count, 11);
}

#[test]
fn retry_budget_exhaustion_surfaces_io_error() {
    let mem = MemConnector::new();
    let flaky = FlakyConnector::with_failures(mem, 5);
    let mut remote = OpendalContainer::make_container(
        OpendalOperator::new(flaky, 3),
        b"u1".to_vec(),
    );
    let r = remote.store(&DataPart { count: 11 });
    assert_eq!(r, Err(StoreError::Io(IoFailure::Transient)));
    // Five faults minus three attempts leaves two; the next call still has
    // them ahead of its budget, so it succeeds.
    remote.store(&DataPart { count: 12 }).unwrap();
    let da: DataPart = remote.load().unwrap();
    assert_eq!(da.count, 12);
}

#[test]
fn load_wallet_with_missing_data_part_fails_with_io() {
    let mut fs = fresh_fs(b"partial");
    fs.store(&descr(b"only")).unwrap();
    fs.store(&CachePart { balance: 1 }).unwrap();
    fs.store(&Layer2Part::NoLayer2).unwrap();
    let r = fs.load_wallet();
    assert_eq!(r.err(), Some(LoadError::Io(IoFailure::NotFound)));
}

#[test]
fn load_from_empty_store_fails_with_io() {
    let mut fs = fresh_fs(b"empty");
    let r: Result<DescrPart, LoadError> = fs.load();
    assert_eq!(r.err(), Some(LoadError::Io(IoFailure::NotFound)));
}

#[test]
fn missing_layer2_loads_as_absent_extension() {
    let mut fs = fresh_fs(b"noext");
    let l2: Layer2Part = fs.load().unwrap();
    assert!(matches!(l2, Layer2Part::NoLayer2));
}

#[test]
fn malformed_object_fails_with_decode() {
    let mut conn = MemConnector::new();
    conn.write(b"bad/data.toml", b"count = three\n").unwrap();
    let mut fs = FsContainer::new(conn, b"bad".to_vec());
    let r: Result<DataPart, LoadError> = fs.load();
    assert_eq!(r.err(), Some(LoadError::Decode));
}

#[test]
fn ill_formed_descriptor_fails_with_encode_and_writes_nothing() {
    let mut fs = fresh_fs(b"enc");
    let bad = DescrPart { descr: b"two\nlines".to_vec() };
    let r = fs.store(&bad);
    assert_eq!(r, Err(StoreError::Encode));
    let conn = fs.into_conn();
    assert!(conn.get(b"enc/descr.toml").is_none());
}

#[test]
fn scenario_store_then_load_base_wallet() {
    // Descriptor, data {count: 3}, cache {balance: 42}, no extension, at a
    // fresh local root.
    let mut fs = fresh_fs(b"t1");
    let w = Wallet::with(
        descr(b"D1"),
        DataPart { count: 3 },
        CachePart { balance: 42 },
        Layer2Part::NoLayer2,
    );
    fs.store_wallet(&w).unwrap();
    let loaded = fs.load_wallet().unwrap();
    assert_eq!(loaded.data().count, 3);
    assert_eq!(loaded.cache().balance, 42);
    assert!(matches!(loaded.layer2(), Layer2Part::NoLayer2));
}

#[test]
fn scenario_remote_store_is_readable_directly_under_its_key() {
    // Remote backend with the filesystem-kind store, wallet id `u1`: after
    // storing the descriptor, the object at `u1/descr.toml` in the backing
    // store decodes to the same descriptor via the part codec.
    let config = StoreBackendConfig::default();
    assert!(matches!(config, StoreBackendConfig::Fs { ref root } if root == &b"./".to_vec()));
    let mut remote = fresh_remote(b"u1", 3);
    let d0 = descr(b"D1");
    remote.store(&d0).unwrap();
    let store = remote.into_operator().into_conn();
    let raw = store.get(b"u1/descr.toml").unwrap();
    let decoded = DescrPart::from_bytes(&raw).unwrap();
    assert_eq!(decoded.descr, b"D1".to_vec());
}

#[test]
fn wallet_store_is_fail_fast_without_rollback() {
    // The layer-2 part is stored last; when it is ill-formed the three
    // parts before it remain overwritten.
    let mut fs = fresh_fs(b"ff");
    let w = Wallet::with(
        descr(b"ok"),
        DataPart { count: 8 },
        CachePart { balance: 9 },
        Layer2Part::Layer2 {
            descr: DescrPart { descr: b"bad\nline".to_vec() },
            data: DataPart { count: 0 },
            cache: CachePart { balance: 0 },
        },
    );
    let r = fs.store_wallet(&w);
    assert_eq!(r, Err(StoreError::Encode));
    let conn = fs.into_conn();
    assert!(conn.get(b"ff/descr.toml").is_some());
    assert!(conn.get(b"ff/data.toml").is_some());
    assert!(conn.get(b"ff/cache.yaml").is_some());
    assert!(conn.get(b"ff/layer2.yaml").is_none());
}

#[test]
fn numeric_fields_round_trip_at_the_bounds() {
    let mut fs = fresh_fs(b"bounds");
    fs.store(&DataPart { count: u64::MAX }).unwrap();
    fs.store(&CachePart { balance: 0 }).unwrap();
    let da: DataPart = fs.load().unwrap();
    assert_eq!(da.count, u64::MAX);
    let c: CachePart = fs.load().unwrap();
    assert_eq!(c.balance, 0);
    let max = DataPart { count: u64::MAX }.to_bytes().unwrap();
    assert_eq!(max, b"count = 0xffffffffffffffff\n".to_vec());
}

#[test]
fn empty_descriptor_text_round_trips() {
    let mut fs = fresh_fs(b"edge");
    fs.store(&descr(b"")).unwrap();
    let d: DescrPart = fs.load().unwrap();
    assert_eq!(d.descr, Vec::<u8>::new());
}
