use bloom_ext::engine::{BloomError, Engine, Extension};

#[test]
fn sanity() {
    let mut e = Engine::new();
    let h1 = e.bloom_init_handle();
    let h1 = e
        .bloom_update_handle(h1, String::from("hello"))
        .unwrap();
    let h1 = e
        .bloom_update_handle(h1, String::from("world"))
        .unwrap();

    let h2 = e.bloom_init_handle();
    let h2 = e.bloom_update_handle(h2, String::from("foo")).unwrap();
    let h2 = e.bloom_update_handle(h2, String::from("bar")).unwrap();

    let m = e.bloom_merge_handle(h1, h2).unwrap();

    let s = e.bloom_serialize_handle(m).unwrap();
    let d = e.bloom_deserialize_handle(s).unwrap();
    let s = e.bloom_serialize_handle(d).unwrap();

    assert_eq!(
        Engine::bloom_maybe_exists(s.clone(), String::from("foo")).unwrap(),
        true
    );
    assert_eq!(
        Engine::bloom_maybe_exists(s.clone(), String::from("bar")).unwrap(),
        true
    );
    assert_eq!(
        Engine::bloom_maybe_exists(s.clone(), String::from("hello")).unwrap(),
        true
    );
    assert_eq!(
        Engine::bloom_maybe_exists(s.clone(), String::from("world")).unwrap(),
        true
    );
    assert_eq!(
        Engine::bloom_maybe_exists(s.clone(), String::from("notfound")).unwrap(),
        false
    );
}

#[test]
fn no_false_negatives_for_updates() {
    let mut e = Engine::new();
    let h = e.bloom_init_handle();
    let items = ["one", "two", "three", "four", "five"];
    for it in items {
        e.bloom_update_handle(h, String::from(it)).unwrap();
    }
    let blob = e.bloom_serialize_handle(h).unwrap();
    for it in items {
        assert!(Engine::bloom_maybe_exists(blob.clone(), String::from(it)).unwrap());
    }
}

#[test]
fn round_trip_preserves_membership() {
    let mut e = Engine::new();
    let h = e.bloom_init_handle();
    e.bloom_update_handle(h, String::from("alpha")).unwrap();
    e.bloom_update_handle(h, String::from("beta")).unwrap();
    let b1 = e.bloom_serialize_handle(h).unwrap();
    let h2 = e.bloom_deserialize_handle(b1.clone()).unwrap();
    let b2 = e.bloom_serialize_handle(h2).unwrap();
    assert_eq!(b1, b2);
    assert!(Engine::bloom_maybe_exists(b2.clone(), String::from("alpha")).unwrap());
    assert!(Engine::bloom_maybe_exists(b2.clone(), String::from("beta")).unwrap());
    assert!(!Engine::bloom_maybe_exists(b2.clone(), String::from("gamma")).unwrap());
}

#[test]
fn merge_union_keeps_members_of_both_sides() {
    let mut e = Engine::new();
    let a = e.bloom_init_handle();
    e.bloom_update_handle(a, String::from("left-item")).unwrap();
    let b = e.bloom_init_handle();
    e.bloom_update_handle(b, String::from("right-item"))
        .unwrap();
    let m = e.bloom_merge_handle(a, b).unwrap();
    let blob = e.bloom_serialize_handle(m).unwrap();
    assert!(Engine::bloom_maybe_exists(blob.clone(), String::from("left-item")).unwrap());
    assert!(Engine::bloom_maybe_exists(blob.clone(), String::from("right-item")).unwrap());
}

#[test]
fn update_is_idempotent() {
    let mut e = Engine::new();
    let h1 = e.bloom_init_handle();
    e.bloom_update_handle(h1, String::from("pelican")).unwrap();
    let once = e.bloom_serialize_handle(h1).unwrap();

    let h2 = e.bloom_init_handle();
    e.bloom_update_handle(h2, String::from("pelican")).unwrap();
    e.bloom_update_handle(h2, String::from("pelican")).unwrap();
    let twice = e.bloom_serialize_handle(h2).unwrap();

    assert_eq!(once, twice);
}

#[test]
fn merged_right_handle_is_dead() {
    let mut e = Engine::new();
    let a = e.bloom_init_handle();
    let b = e.bloom_init_handle();
    e.bloom_merge_handle(a, b).unwrap();
    assert_eq!(
        e.bloom_update_handle(b, String::from("x")),
        Err(BloomError::DeadHandle)
    );
    assert_eq!(e.bloom_serialize_handle(b), Err(BloomError::DeadHandle));
    e.bloom_update_handle(a, String::from("x")).unwrap();
}

#[test]
fn serialized_handle_is_dead() {
    let mut e = Engine::new();
    let h = e.bloom_init_handle();
    let _ = e.bloom_serialize_handle(h).unwrap();
    assert_eq!(
        e.bloom_update_handle(h, String::from("x")),
        Err(BloomError::DeadHandle)
    );
}

#[test]
fn unknown_handles_are_rejected() {
    let mut e = Engine::new();
    assert_eq!(
        e.bloom_update_handle(0, String::from("x")),
        Err(BloomError::DeadHandle)
    );
    assert_eq!(
        e.bloom_update_handle(-1, String::from("x")),
        Err(BloomError::DeadHandle)
    );
    assert_eq!(e.bloom_merge_handle(0, 1), Err(BloomError::DeadHandle));
}

#[test]
fn merging_a_handle_with_itself_is_rejected() {
    let mut e = Engine::new();
    let h = e.bloom_init_handle();
    assert_eq!(e.bloom_merge_handle(h, h), Err(BloomError::DeadHandle));
    e.bloom_update_handle(h, String::from("x")).unwrap();
}

#[test]
fn malformed_blobs_are_rejected() {
    assert_eq!(
        Engine::bloom_maybe_exists(vec![], String::from("x")),
        Err(BloomError::MalformedBlob)
    );
    assert_eq!(
        Engine::bloom_maybe_exists(vec![0u8; 7], String::from("x")),
        Err(BloomError::MalformedBlob)
    );
    let mut e = Engine::new();
    assert_eq!(
        e.bloom_deserialize_handle(vec![0u8; 12]),
        Err(BloomError::MalformedBlob)
    );
    assert_eq!(
        e.bloom_deserialize_handle(vec![]),
        Err(BloomError::MalformedBlob)
    );
}

#[test]
fn mismatched_sizes_are_rejected_on_merge() {
    let mut e = Engine::new();
    let big = e.bloom_init_handle();
    let small = e.bloom_deserialize_handle(vec![0u8; 8]).unwrap();
    assert_eq!(
        e.bloom_merge_handle(big, small),
        Err(BloomError::IncompatibleParams)
    );
    e.bloom_update_handle(big, String::from("x")).unwrap();
    e.bloom_update_handle(small, String::from("x")).unwrap();
}

#[test]
fn init_filter_serializes_to_zeroed_bytes() {
    let mut e = Engine::new();
    let h = e.bloom_init_handle();
    let blob = e.bloom_serialize_handle(h).unwrap();
    assert_eq!(blob.len(), 4 * 1024 * 1024);
    assert!(blob.iter().all(|b| *b == 0));
}

#[test]
fn update_sets_bits_in_the_serialized_array() {
    let mut e = Engine::new();
    let h = e.bloom_init_handle();
    e.bloom_update_handle(h, String::from("needle")).unwrap();
    let blob = e.bloom_serialize_handle(h).unwrap();
    assert!(blob.iter().any(|b| *b != 0));
    assert!(Engine::bloom_maybe_exists(blob.clone(), String::from("needle")).unwrap());
    assert!(!Engine::bloom_maybe_exists(blob, String::from("haystack")).unwrap());
}

#[test]
fn empty_small_filter_reports_nothing() {
    assert!(!Engine::bloom_maybe_exists(vec![0u8; 8], String::from("x")).unwrap());
}

#[test]
fn false_positive_rate_within_bound() {
    let mut e = Engine::new();
    let h = e.bloom_init_handle();
    let n: usize = 50;
    for i in 0..n {
        e.bloom_update_handle(h, format!("member-{i}")).unwrap();
    }
    let blob = e.bloom_serialize_handle(h).unwrap();
    let probes: usize = 200;
    let mut positives: usize = 0;
    for i in 0..probes {
        if Engine::bloom_maybe_exists(blob.clone(), format!("probe-{i}")).unwrap() {
            positives += 1;
        }
    }
    let m = (blob.len() * 8) as f64;
    let k = 100.0f64;
    let bound = (1.0 - (-(k * n as f64) / m).exp()).powf(k);
    let allowed = ((probes as f64) * bound * 10.0).ceil();
    assert!((positives as f64) <= allowed);
}
