use shadow_rs::table::ConstEntry;
use shadow_rs::table::ConstTable;
use shadow_rs::table::ConstType;
use shadow_rs::table::merge;

fn entry(key: &str, v: &str) -> ConstEntry {
    ConstEntry::new(key.to_string(), format!("the {} value", key), ConstType::Str, v.to_string())
}

fn table(pairs: &[(&str, &str)]) -> ConstTable {
    let mut t = ConstTable::new();
    for (k, v) in pairs {
        t.insert(entry(k, v));
    }
    t
}

#[test]
fn merge_last_writer_wins() {
    let a = table(&[("K", "from-a")]);
    let b = table(&[("K", "from-b")]);
    let merged = merge(&vec![a, b]);
    assert_eq!(merged.get("K").unwrap().v, "from-b");
}

#[test]
fn merge_keeps_unshared_keys() {
    let a = table(&[("ALPHA", "1"), ("SHARED", "old")]);
    let b = table(&[("BETA", "2"), ("SHARED", "new")]);
    let merged = merge(&vec![a, b]);
    assert_eq!(merged.get("ALPHA").unwrap().v, "1");
    assert_eq!(merged.get("BETA").unwrap().v, "2");
    assert_eq!(merged.get("SHARED").unwrap().v, "new");
}

#[test]
fn merge_of_nothing_is_empty() {
    let merged = merge(&Vec::new());
    assert!(merged.get("ANYTHING").is_none());
    assert_eq!(merged.len(), 0);
}

#[test]
fn insert_replaces_same_key() {
    let mut t = ConstTable::new();
    t.insert(entry("PKG_VERSION", "0.1.0"));
    t.insert(entry("PKG_VERSION", "0.2.0"));
    assert_eq!(t.len(), 1);
    assert_eq!(t.get("PKG_VERSION").unwrap().v, "0.2.0");
}

#[test]
fn insert_uppercases_keys() {
    let mut t = ConstTable::new();
    t.insert(entry("tag", "v1.2.3"));
    let e = t.get("TAG").expect("key is stored upper-case");
    assert_eq!(e.key, "TAG");
    assert_eq!(e.v, "v1.2.3");
    assert!(t.get("tag").is_none());
}

#[test]
fn entries_are_kept_sorted_by_key() {
    let t = table(&[("GAMMA", "3"), ("ALPHA", "1"), ("BETA", "2")]);
    assert_eq!(t.len(), 3);
    assert_eq!(t.entry_at(0).key, "ALPHA");
    assert_eq!(t.entry_at(1).key, "BETA");
    assert_eq!(t.entry_at(2).key, "GAMMA");
}
