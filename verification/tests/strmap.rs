use sinfo::sort::sort_by_key;
use sinfo::sensors::cpu_freq::CpuFreqEntry;
use sinfo::strmap::StrMap;

#[test]
fn insert_replaces_and_remove_deletes() {
    let mut m: StrMap<u64> = StrMap::new();
    assert!(m.is_empty());
    m.insert("a".to_string(), 1);
    m.insert("b".to_string(), 2);
    m.insert("a".to_string(), 3);
    assert_eq!(m.len(), 2);
    assert_eq!(m.get("a"), Some(&3));
    assert!(m.contains_key(&"b".to_string()));
    m.remove(&"b".to_string());
    assert_eq!(m.get("b"), None);
    m.remove(&"zz".to_string());
    assert_eq!(m.len(), 1);
    m.clear();
    assert!(m.is_empty());
}

#[test]
fn keys_are_distinct() {
    let mut m: StrMap<u64> = StrMap::new();
    for k in ["x", "y", "x", "z", "y"] {
        m.insert(k.to_string(), 0);
    }
    let mut keys = m.keys();
    keys.sort();
    assert_eq!(keys, vec!["x", "y", "z"]);
    assert_eq!(m.key_at(0), "x");
}

#[test]
fn extend_from_prefers_the_other_map() {
    let mut a: StrMap<String> = StrMap::new();
    a.insert("k".to_string(), "old".to_string());
    a.insert("only_a".to_string(), "1".to_string());
    let mut b: StrMap<String> = StrMap::new();
    b.insert("k".to_string(), "new".to_string());
    b.insert("only_b".to_string(), "2".to_string());
    a.extend_from(&b);
    assert_eq!(a.len(), 3);
    assert_eq!(a.get("k").unwrap(), "new");
    assert_eq!(a.get("only_a").unwrap(), "1");
    assert_eq!(a.get("only_b").unwrap(), "2");
}

#[test]
fn sort_by_key_is_stable() {
    let v = vec![
        CpuFreqEntry { index: 3, freq_path: "c".to_string() },
        CpuFreqEntry { index: 1, freq_path: "a".to_string() },
        CpuFreqEntry { index: 2, freq_path: "b".to_string() },
        CpuFreqEntry { index: 1, freq_path: "a2".to_string() },
    ];
    let r = sort_by_key(v);
    let idx: Vec<u32> = r.iter().map(|e| e.index).collect();
    assert_eq!(idx, vec![1, 1, 2, 3]);
    // Equal keys keep their order.
    let paths: Vec<String> = r.iter().map(|e| e.freq_path.clone()).collect();
    assert_eq!(paths, vec!["a", "a2", "b", "c"]);
}
