use pwmgr::database::properties::Properties;
use pwmgr::database::types::{Entry, IdError, ServiceId};

fn strings(items: &[&str]) -> Vec<String> {
    items.iter().map(|s| s.to_string()).collect()
}

#[test]
fn service_id_roundtrip_string() {
    let id = ServiceId::new();
    let s = id.to_string();
    let back = ServiceId::from_string(&s).unwrap();
    assert_eq!(id, back);
}

#[test]
fn service_id_ordering() {
    let min = ServiceId::min();
    let max = ServiceId::max();
    let mid = ServiceId::new();
    assert!(min < mid && mid < max);
}

#[test]
fn entry_new_dedup_sorts() {
    let id = ServiceId::new();
    let entry = Entry::new(
        id.clone(),
        "svc".to_string(),
        vec!["b".into(), "a".into(), "a".into()],
        vec!["tag2".into(), "tag1".into(), "tag1".into()],
        Properties::new(),
    );

    assert_eq!(entry.id(), id);
    assert_eq!(entry.service(), "svc".to_string());
    assert_eq!(entry.aliases(), vec!["a".to_string(), "b".to_string()]);
    assert_eq!(entry.tags(), vec!["tag1".to_string(), "tag2".to_string()]);
}

#[test]
fn entry_accessors_clone() {
    let id = ServiceId::new();
    let mut props = Properties::new();
    props.insert("k".to_string(), "v".to_string());
    let entry = Entry::new(
        id.clone(),
        "svc".to_string(),
        vec!["a".into()],
        vec!["tag".into()],
        props.clone(),
    );

    assert_eq!(entry.id(), id);
    assert_eq!(entry.service(), "svc".to_string());
    assert_eq!(entry.aliases(), vec!["a".to_string()]);
    assert_eq!(entry.tags(), vec!["tag".to_string()]);
    assert_eq!(entry.properties(), props);
}

#[test]
fn entry_mask_secret_properties_masks_values() {
    let id = ServiceId::new();
    let mut props = Properties::new();
    props.insert("user".to_string(), "alice".to_string());
    props.insert("password!".to_string(), "secret".to_string());

    let mut entry = Entry::new(
        id.clone(),
        "svc".to_string(),
        vec!["a".into()],
        vec!["tag".into()],
        props,
    );

    entry.mask_secret_properties();

    let properties = entry.properties();
    assert_eq!(properties.get("user"), Some(&"alice".to_string()));
    assert_eq!(properties.get("password!"), Some(&"<< SECRET >>".to_string()));
}

#[test]
fn service_id_value_bytes_roundtrip() {
    let id = ServiceId::new();
    let bytes = ServiceId::as_bytes(&id);
    let back = ServiceId::from_bytes(&bytes);
    assert_eq!(id, back);
}

#[test]
fn service_id_text_of_known_values() {
    assert_eq!(ServiceId::min().to_string(), "00000000000000000000000000");
    assert_eq!(ServiceId::max().to_string(), "7ZZZZZZZZZZZZZZZZZZZZZZZZZ");
    assert_eq!(
        ServiceId::from_string("00000000000000000000000000"),
        Ok(ServiceId::min())
    );
    assert_eq!(
        ServiceId::from_string("7ZZZZZZZZZZZZZZZZZZZZZZZZZ"),
        Ok(ServiceId::max())
    );
    assert_eq!(
        ServiceId::from_string("0000000000000000000000000Z"),
        Ok(ServiceId { value: 31 })
    );
    assert_eq!(
        ServiceId::from_string("21850M2GA1850M2GA1850M2GA1"),
        Ok(ServiceId { value: 0x41414141414141414141414141414141 })
    );
    assert_eq!(ServiceId { value: 32 }.to_string(), "00000000000000000000000010");
}

#[test]
fn service_id_texts_that_are_refused() {
    assert_eq!(ServiceId::from_string(""), Err(IdError::InvalidLength));
    assert_eq!(
        ServiceId::from_string("0000000000000000000000000"),
        Err(IdError::InvalidLength)
    );
    assert_eq!(
        ServiceId::from_string("000000000000000000000000000"),
        Err(IdError::InvalidLength)
    );
    assert_eq!(
        ServiceId::from_string("0000000000000000000000000U"),
        Err(IdError::InvalidChar)
    );
    assert_eq!(
        ServiceId::from_string("000000000000000000000000\u{e9}"),
        Err(IdError::InvalidChar)
    );
}

#[test]
fn service_id_bytes_are_big_endian() {
    let mut expected = [0u8; 16];
    expected[15] = 1;
    assert_eq!(ServiceId::as_bytes(&ServiceId { value: 1 }), expected);
    expected[0] = 0xab;
    expected[15] = 0xcd;
    let id = ServiceId { value: (0xabu128 << 120) | 0xcd };
    assert_eq!(ServiceId::as_bytes(&id), expected);
    assert_eq!(ServiceId::from_bytes(&expected), id);
    assert_eq!(ServiceId::as_bytes(&ServiceId::max()), [0xffu8; 16]);
    assert_eq!(ServiceId::from_bytes(&[0u8; 16]), ServiceId::min());
    assert_eq!(ServiceId::fixed_width(), Some(16));
}

#[test]
fn service_id_range_covers_everything() {
    let (low, high) = ServiceId::range_all();
    assert_eq!(low, ServiceId::min());
    assert_eq!(high, ServiceId::max());
    assert_eq!(low.value, 0);
    assert_eq!(high.value, u128::MAX);
}

#[test]
fn entry_new_stamps_and_leaves_removed_unset() {
    let entry = Entry::new(
        ServiceId { value: 7 },
        "svc".to_string(),
        strings(&[]),
        strings(&[]),
        Properties::new(),
    );
    assert!(entry.last_update().is_some());
    assert_eq!(entry.removed(), None);
    assert!(!entry.is_removed());
    assert_eq!(Entry::fixed_width(), None);
}

#[test]
fn entry_new_at_is_exact() {
    let mut props = Properties::new();
    props.insert("user".to_string(), "alice".to_string());
    let entry = Entry::new_at(
        ServiceId { value: 7 },
        "svc".to_string(),
        strings(&["z", "y", "z", "a"]),
        strings(&["t", "t"]),
        props.clone(),
        1_700_000_000,
    );
    let expected = Entry::from_parts(
        ServiceId { value: 7 },
        "svc".to_string(),
        strings(&["a", "y", "z"]),
        strings(&["t"]),
        props,
        Some(1_700_000_000),
        None,
    );
    assert_eq!(entry, expected);
}

#[test]
fn entry_sorts_by_code_point() {
    let entry = Entry::new_at(
        ServiceId { value: 1 },
        "svc".to_string(),
        strings(&["b", "B", "a", "\u{e9}", "ab", "", "a"]),
        strings(&[]),
        Properties::new(),
        0,
    );
    assert_eq!(entry.aliases(), strings(&["", "B", "a", "ab", "b", "\u{e9}"]));
}

#[test]
fn entry_from_parts_keeps_order() {
    let entry = Entry::from_parts(
        ServiceId { value: 1 },
        "svc".to_string(),
        strings(&["b", "a", "a"]),
        strings(&["t2", "t1"]),
        Properties::new(),
        None,
        Some(false),
    );
    assert_eq!(entry.aliases(), strings(&["b", "a", "a"]));
    assert_eq!(entry.tags(), strings(&["t2", "t1"]));
    assert_eq!(entry.last_update(), None);
    assert_eq!(entry.removed(), Some(false));
    assert!(!entry.is_removed());
}

#[test]
fn entry_setters() {
    let mut entry = Entry::new_at(
        ServiceId { value: 1 },
        "svc".to_string(),
        strings(&[]),
        strings(&[]),
        Properties::new(),
        10,
    );
    entry.set_last_update(42);
    assert_eq!(entry.last_update(), Some(42));
    entry.set_removed(true);
    assert!(entry.is_removed());
    assert_eq!(entry.removed(), Some(true));
    entry.set_removed(false);
    assert!(!entry.is_removed());
    assert_eq!(entry.removed(), None);
    entry.set_last_update_now();
    assert!(entry.last_update().is_some());
    let copy = entry.clone();
    assert_eq!(copy, entry);
}

#[test]
fn mask_touches_only_marked_names() {
    let mut props = Properties::new();
    props.insert("!".to_string(), "one".to_string());
    props.insert("pin!".to_string(), "1234".to_string());
    props.insert("!pin".to_string(), "keep".to_string());
    props.insert("".to_string(), "empty".to_string());
    let mut entry = Entry::new_at(
        ServiceId { value: 1 },
        "svc".to_string(),
        strings(&[]),
        strings(&[]),
        props,
        0,
    );
    entry.mask_secret_properties();
    let shown = entry.properties();
    assert_eq!(shown.get("!"), Some(&"<< SECRET >>".to_string()));
    assert_eq!(shown.get("pin!"), Some(&"<< SECRET >>".to_string()));
    assert_eq!(shown.get("!pin"), Some(&"keep".to_string()));
    assert_eq!(shown.get(""), Some(&"empty".to_string()));
    assert_eq!(shown.len(), 4);
}

#[test]
fn properties_behave_like_a_map() {
    let mut props = Properties::new();
    assert!(props.is_empty());
    assert_eq!(props.insert("b".to_string(), "2".to_string()), None);
    assert_eq!(props.insert("a".to_string(), "1".to_string()), None);
    assert_eq!(props.insert("c".to_string(), "3".to_string()), None);
    assert_eq!(props.insert("b".to_string(), "two".to_string()), Some("2".to_string()));
    assert_eq!(props.len(), 3);
    assert_eq!(props.key_at(0), "a");
    assert_eq!(props.key_at(1), "b");
    assert_eq!(props.key_at(2), "c");
    assert_eq!(props.value_at(1), "two");
    assert_eq!(props.get("b"), Some(&"two".to_string()));
    assert_eq!(props.get("d"), None);
    assert!(props.contains_key("a"));
    assert!(!props.contains_key("aa"));
    props.set_value_at(0, "one".to_string());
    assert_eq!(props.get("a"), Some(&"one".to_string()));

    let mut other = Properties::new();
    other.insert("c".to_string(), "3".to_string());
    other.insert("a".to_string(), "one".to_string());
    other.insert("b".to_string(), "two".to_string());
    assert!(props.same_as(&other));
    assert_eq!(props, other);
    other.insert("b".to_string(), "2".to_string());
    assert!(!props.same_as(&other));
}
