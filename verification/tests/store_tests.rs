//! Behavioral tests of the store read path and the session views.

use rdbview::render::DisplayMode;
use rdbview::session::{mode_of_token, preview_rows, rendered_lookup, DataSource, ViewError};
use rdbview::store::{
    lookup_outcome, scan_outcome, LookupError, OpenError, Record, ScanError, StoreCatalog,
};

fn names(v: &[&str]) -> Vec<String> {
    v.iter().map(|s| s.to_string()).collect()
}

#[test]
fn find_partition_present() {
    let c = StoreCatalog::new(names(&["CF1", "CF2", "CF3"]));
    assert_eq!(c.find_partition("CF1").unwrap(), 0);
    assert_eq!(c.find_partition("CF3").unwrap(), 2);
}

#[test]
fn find_partition_absent_is_unknown() {
    let c = StoreCatalog::new(names(&["CF1", "CF2", "CF3"]));
    assert!(matches!(c.find_partition("CF4"), Err(LookupError::UnknownPartition)));
    assert!(matches!(c.find_partition(""), Err(LookupError::UnknownPartition)));
}

#[test]
fn list_partitions_keeps_order() {
    let c = StoreCatalog::new(names(&["b", "a", "c"]));
    assert_eq!(c.list_partitions(), &names(&["b", "a", "c"]));
}

#[test]
fn lookup_present_value_passes_through() {
    let r = lookup_outcome(Ok(Some(vec![1u8, 2, 3])));
    assert_eq!(r.unwrap(), vec![1u8, 2, 3]);
}

#[test]
fn lookup_absent_key_is_not_found() {
    assert!(matches!(lookup_outcome(Ok(None)), Err(LookupError::NotFound)));
}

#[test]
fn lookup_engine_failure_keeps_message() {
    match lookup_outcome(Err("disk gone".to_string())) {
        Err(LookupError::Engine(m)) => assert_eq!(m, "disk gone"),
        _ => panic!("expected an engine failure"),
    }
}

#[test]
fn scan_decodes_keys_in_order() {
    let raw = vec![
        (b"alpha".to_vec(), vec![1u8]),
        (b"beta".to_vec(), vec![2u8, 2]),
        (b"gamma".to_vec(), vec![]),
    ];
    let recs = scan_outcome(&raw).unwrap();
    assert_eq!(recs.len(), 3);
    assert_eq!(recs[0].key, "alpha");
    assert_eq!(recs[1].key, "beta");
    assert_eq!(recs[2].key, "gamma");
    assert_eq!(recs[0].value, vec![1u8]);
    assert_eq!(recs[1].value, vec![2u8, 2]);
    assert_eq!(recs[2].value, Vec::<u8>::new());
}

#[test]
fn scan_aborts_on_invalid_key() {
    let raw = vec![
        (b"good".to_vec(), vec![1u8]),
        (vec![0xFFu8, 0x00], vec![2u8]),
        (b"later".to_vec(), vec![3u8]),
    ];
    assert!(matches!(scan_outcome(&raw), Err(ScanError::InvalidKey)));
}

#[test]
fn scan_twice_yields_identical_records() {
    let raw = vec![
        (b"k1".to_vec(), vec![10u8, 20]),
        (b"k2".to_vec(), vec![30u8]),
    ];
    let first = scan_outcome(&raw).unwrap();
    let second = scan_outcome(&raw).unwrap();
    assert_eq!(first.len(), second.len());
    for (a, b) in first.iter().zip(second.iter()) {
        assert_eq!(a.key, b.key);
        assert_eq!(a.value, b.value);
    }
}

/// The shape the seeding utility gives its third partition: a few fixed
/// string records and a thousand-plus copies of one binary payload under
/// `img {i}` keys, in byte-lexicographic key order.
fn seeded_scan_partition() -> Vec<(Vec<u8>, Vec<u8>)> {
    let payload: Vec<u8> = vec![0xFF, 0xD8, 0xFF, 0xE0, 0x00, 0x10];
    let mut raw: Vec<(Vec<u8>, Vec<u8>)> = Vec::new();
    for i in 1..=3 {
        let key = format!("CF3_k{}", i);
        let value = format!("CF3_v{}", i);
        raw.push((key.into_bytes(), value.into_bytes()));
    }
    let mut img_keys: Vec<String> = (0..1024).map(|i| format!("img {}", i)).collect();
    img_keys.sort();
    for k in img_keys {
        raw.push((k.into_bytes(), payload.clone()));
    }
    raw
}

#[test]
fn seeded_store_shape_scans_fully() {
    let source = DataSource::Backed(StoreCatalog::new(names(&["CF1", "CF2", "CF3"])));
    let listed = source.partition_names();
    assert_eq!(listed.len(), 3);
    assert_eq!(listed[2], "CF3");

    let raw = seeded_scan_partition();
    let recs = scan_outcome(&raw).unwrap();
    assert!(recs.len() >= 1024);
    let img_rows: Vec<&Record> =
        recs.iter().filter(|r| r.key.starts_with("img ")).collect();
    assert_eq!(img_rows.len(), 1024);
    for r in img_rows {
        let suffix = &r.key["img ".len()..];
        let i: u32 = suffix.parse().expect("an img key ends in its index");
        assert!(i < 1024);
    }
}

#[test]
fn empty_source_lists_nothing() {
    let source = DataSource::Empty;
    assert!(source.partition_names().is_empty());
}

#[test]
fn preview_rows_pair_keys_with_bounded_previews() {
    let recs = vec![
        Record { key: "k1".to_string(), value: b"short".to_vec() },
        Record { key: "k2".to_string(), value: vec![b'x'; 100] },
        Record { key: "k3".to_string(), value: vec![0x00, 0xFF, 0x41] },
    ];
    let rows = preview_rows(&recs);
    assert_eq!(rows.len(), 3);
    assert_eq!(rows[0], ("k1".to_string(), "short".to_string()));
    let long = &rows[1].1;
    assert_eq!(long.chars().count(), 65);
    assert!(long.ends_with('\u{2026}'));
    assert_eq!(rows[2].1, "..A");
}

#[test]
fn mode_tokens_follow_the_display_contract() {
    assert_eq!(mode_of_token("None"), DisplayMode::Plain(2048));
    assert_eq!(mode_of_token("json"), DisplayMode::Json);
    assert_eq!(mode_of_token("hex"), DisplayMode::Hex(2048));
    assert_eq!(mode_of_token("anything else"), DisplayMode::Plain(2048));
    assert_eq!(mode_of_token(""), DisplayMode::Plain(2048));
}

#[test]
fn rendered_lookup_composes_lookup_and_rendering() {
    let hit = rendered_lookup(Ok(Some(b"hello".to_vec())), DisplayMode::Plain(64));
    assert_eq!(hit.unwrap(), "hello");

    let miss = rendered_lookup(Ok(None), DisplayMode::Plain(64));
    assert!(matches!(miss, Err(ViewError::Lookup(LookupError::NotFound))));

    let broken = rendered_lookup(Err("lock held".to_string()), DisplayMode::Json);
    assert!(matches!(broken, Err(ViewError::Lookup(LookupError::Engine(_)))));

    let not_json = rendered_lookup(Ok(Some(b"plain text".to_vec())), DisplayMode::Json);
    assert!(matches!(
        not_json,
        Err(ViewError::Render(rdbview::render::RenderError::NotJson))
    ));
}

#[test]
fn open_error_keeps_the_engine_message() {
    let e = OpenError::new("IO error: no store here".to_string());
    assert_eq!(e.message().as_str(), "IO error: no store here");
}
