use std::any::TypeId;
use std::sync::Arc;

use substrate::generation::{
    GeneratedCheck, GenerationError, GenerationMap, ObjectId, ParamKey,
};

#[test]
fn test_generation_map_get_id() {
    let mut gen_map = GenerationMap::new();

    let id: ObjectId = match gen_map.get_id("key1".to_string()) {
        GeneratedCheck::Exists(_) => panic!("Corresponding object should not exist already"),
        GeneratedCheck::MustGenerate(id) => id,
    };

    gen_map.set(id, "name", "value".to_string());

    let same_id = match gen_map.get_id("key1".to_string()) {
        GeneratedCheck::Exists(id) => id,
        GeneratedCheck::MustGenerate(_) => panic!("Corresponding object should exist already"),
    };

    assert_eq!(id, same_id);

    let new_id = match gen_map.get_id("key2".to_string()) {
        GeneratedCheck::Exists(_) => panic!("Corresponding object should not exist already"),
        GeneratedCheck::MustGenerate(id) => id,
    };

    assert_ne!(id, new_id);
}

#[test]
fn test_generation_map_get_by_id() -> Result<(), GenerationError> {
    let mut gen_map: GenerationMap<String, _> = GenerationMap::new();

    let id: ObjectId = gen_map.gen_id();

    gen_map.set(id, "name", "value".to_string());

    let v = gen_map.get_by_id(id)?;

    assert_eq!(v, &Arc::new("value".to_string()));

    Ok(())
}

#[test]
fn test_generation_map_get() {
    let mut gen_map = GenerationMap::new();

    let id: ObjectId = match gen_map.get("key1".to_string()) {
        GeneratedCheck::Exists(_) => panic!("Corresponding object should not exist already"),
        GeneratedCheck::MustGenerate(id) => id,
    };

    gen_map.set(id, "name", "value".to_string());

    let v = match gen_map.get("key1".to_string()) {
        GeneratedCheck::Exists(v) => v,
        GeneratedCheck::MustGenerate(_) => panic!("Corresponding object should exist already"),
    };

    assert_eq!(v, Arc::from("value".to_string()));

    let new_id = match gen_map.get("key2".to_string()) {
        GeneratedCheck::Exists(_) => panic!("Corresponding object should not exist already"),
        GeneratedCheck::MustGenerate(id) => id,
    };

    assert_ne!(id, new_id);
}

#[test]
fn test_generation_map_values() {
    let mut gen_map: GenerationMap<String, _> = GenerationMap::new();

    for i in 0..3 {
        let id: ObjectId = gen_map.gen_id();

        gen_map.set(id, "name", format!("value{i}"));
    }

    for _ in 0..3 {
        let _ = gen_map.gen_id();
    }

    let values = gen_map.values();

    assert_eq!(values.len(), 3);
    assert!(values.contains(&Arc::new("value0".to_string())));
    assert!(values.contains(&Arc::new("value1".to_string())));
    assert!(values.contains(&Arc::new("value2".to_string())));
}

fn handle(r: GeneratedCheck<ObjectId, ObjectId>) -> ObjectId {
    match r {
        GeneratedCheck::Exists(h) => h,
        GeneratedCheck::MustGenerate(h) => h,
    }
}

#[test]
fn equal_keys_share_one_handle_in_any_order() {
    let mut m: GenerationMap<String, u32> = GenerationMap::new();
    let a1 = m.get_id("a".to_string());
    assert!(matches!(a1, GeneratedCheck::MustGenerate(_)));
    let b1 = m.get_id("b".to_string());
    let a2 = m.get_id("a".to_string());
    let a3 = m.get_id("a".to_string());
    let b2 = m.get_id("b".to_string());
    assert!(matches!(a2, GeneratedCheck::Exists(_)));
    assert_eq!(handle(a1), handle(a2));
    assert_eq!(handle(a1), handle(a3));
    assert_eq!(handle(b1), handle(b2));
    assert_ne!(handle(a1), handle(b1));
}

#[test]
fn param_keys_deduplicate_by_type_and_bytes() {
    let mut m: GenerationMap<ParamKey, u32> = GenerationMap::new();
    let t = TypeId::of::<u8>();
    let h1 = handle(m.get_id(ParamKey::new(t, b"paramsA".to_vec())));
    let h2 = handle(m.get_id(ParamKey::new(t, b"paramsA".to_vec())));
    let h3 = handle(m.get_id(ParamKey::new(TypeId::of::<u16>(), b"paramsA".to_vec())));
    let h4 = handle(m.get_id(ParamKey::from_params::<u8>(b"paramsB".to_vec())));
    let h5 = handle(m.get_id(ParamKey::from_params::<u8>(b"paramsA".to_vec())));
    assert_eq!(h1, h2);
    assert_ne!(h1, h3);
    assert_ne!(h1, h4);
    assert_eq!(h1, h5);
}

#[test]
fn get_by_id_fails_until_set_then_always_returns_value() {
    let mut m: GenerationMap<String, String> = GenerationMap::new();
    let h = m.gen_id();
    assert_eq!(m.get_by_id(h), Err(GenerationError::NotYetGenerated));
    assert_eq!(m.get_by_id(h), Err(GenerationError::NotYetGenerated));
    let published = m.set(h, "cell", "v".to_string());
    assert_eq!(*published, "v");
    for _ in 0..3 {
        assert_eq!(m.get_by_id(h).unwrap().as_str(), "v");
    }
    let _ = m.gen_id();
    assert_eq!(m.get_by_id(h).unwrap().as_str(), "v");
}

#[test]
fn gen_id_handles_are_distinct_and_unkeyed() {
    let mut m: GenerationMap<String, u32> = GenerationMap::new();
    let k = handle(m.get_id("k".to_string()));
    let hs: Vec<ObjectId> = (0..5).map(|_| m.gen_id()).collect();
    for i in 0..hs.len() {
        assert_ne!(hs[i], k);
        for j in 0..i {
            assert_ne!(hs[i], hs[j]);
        }
    }
    assert_eq!(handle(m.get_id("k".to_string())), k);
}

#[test]
fn values_are_exactly_the_published_ones() {
    let mut m: GenerationMap<String, u32> = GenerationMap::new();
    assert!(m.values().is_empty());
    let a = handle(m.get_id("a".to_string()));
    let b = m.gen_id();
    let c = handle(m.get_id("c".to_string()));
    m.set(c, "c", 30);
    assert_eq!(m.values().iter().map(|v| **v).collect::<Vec<_>>(), vec![30]);
    m.set(a, "a", 10);
    let _ = m.gen_id();
    let mut got: Vec<u32> = m.values().iter().map(|v| **v).collect();
    got.sort();
    assert_eq!(got, vec![10, 30]);
    m.set(b, "b", 10);
    let mut got: Vec<u32> = m.values().iter().map(|v| **v).collect();
    got.sort();
    assert_eq!(got, vec![10, 10, 30]);
}

#[test]
fn alloc_name_probes_numbered_suffixes() {
    let mut m: GenerationMap<String, u32> = GenerationMap::new();
    assert_eq!(m.alloc_name("x"), "x");
    assert!(m.is_name_available("x"));
    let h = m.gen_id();
    m.set(h, "x", 1);
    assert!(m.is_name_used("x"));
    assert!(!m.is_name_available("x"));
    assert_eq!(m.alloc_name("x"), "x_2");
    let h = m.gen_id();
    m.set(h, "x_2", 2);
    assert_eq!(m.alloc_name("x"), "x_3");
    assert_eq!(m.alloc_name("y"), "y");
}

#[test]
fn alloc_name_reaches_two_digit_suffixes() {
    let mut m: GenerationMap<String, u32> = GenerationMap::new();
    for i in 0..11u32 {
        let name = m.alloc_name("n");
        let h = m.gen_id();
        m.set(h, &name, i);
    }
    assert!(m.is_name_used("n_10"));
    assert!(m.is_name_used("n_11"));
    assert_eq!(m.alloc_name("n"), "n_12");
}

#[test]
fn reserve_publish_and_dedupe_scenario() {
    let mut m: GenerationMap<String, String> = GenerationMap::new();
    let h1 = match m.get_id("paramsA".to_string()) {
        GeneratedCheck::MustGenerate(h) => h,
        GeneratedCheck::Exists(_) => panic!("paramsA should be new"),
    };
    m.set(h1, "cellA", "value1".to_string());
    match m.get_id("paramsA".to_string()) {
        GeneratedCheck::Exists(h) => assert_eq!(h, h1),
        GeneratedCheck::MustGenerate(_) => panic!("paramsA should exist"),
    }
    assert_eq!(m.get_by_id(h1).unwrap().as_str(), "value1");
    match m.get_id("paramsB".to_string()) {
        GeneratedCheck::MustGenerate(h2) => assert_ne!(h2, h1),
        GeneratedCheck::Exists(_) => panic!("paramsB should be new"),
    }
}

#[test]
fn chained_alloc_name_yields_distinct_names() {
    let mut m: GenerationMap<String, u32> = GenerationMap::new();
    let hs = [m.gen_id(), m.gen_id(), m.gen_id()];
    let mut names = Vec::new();
    for (i, h) in hs.iter().enumerate() {
        let name = m.alloc_name("n");
        m.set(*h, &name, i as u32);
        names.push(name);
    }
    assert_eq!(names, vec!["n".to_string(), "n_2".to_string(), "n_3".to_string()]);
}

#[test]
fn get_returns_stored_value_for_known_key() {
    let mut m: GenerationMap<String, u32> = GenerationMap::new();
    let h = match m.get("k".to_string()) {
        GeneratedCheck::MustGenerate(h) => h,
        GeneratedCheck::Exists(_) => panic!("k should be new"),
    };
    m.set(h, "k", 7);
    match m.get("k".to_string()) {
        GeneratedCheck::Exists(v) => assert_eq!(*v, 7),
        GeneratedCheck::MustGenerate(_) => panic!("k should exist"),
    }
}
