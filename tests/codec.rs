use proxy_wasm::codec::{
    buffer_into_hashmap, buffer_size, export_hashmap, hashmap_into_buffer, DecodeError, PairMap,
};

fn map_of(pairs: &[(&str, &str)]) -> PairMap {
    let mut m = PairMap::new();
    for (k, v) in pairs {
        m.insert(k.to_string(), v.to_string());
    }
    m
}

fn same(a: &PairMap, b: &PairMap) -> bool {
    if a.len() != b.len() {
        return false;
    }
    for i in 0..a.len() {
        let (k, v) = a.pair_at(i);
        if b.get(k) != Some(v) {
            return false;
        }
    }
    true
}

#[test]
fn empty_map_encodes_to_four_zero_bytes() {
    let m = PairMap::new();
    let b = export_hashmap(&m).unwrap();
    assert_eq!(b, vec![0u8, 0, 0, 0]);
    let d = buffer_into_hashmap(&b).unwrap();
    assert_eq!(d.len(), 0);
}

#[test]
fn one_pair_wire_layout() {
    let m = map_of(&[("ab", "xyz")]);
    assert_eq!(buffer_size(&m), 4 + 8 + 3 + 4);
    let mut b = vec![0xaau8; buffer_size(&m)];
    hashmap_into_buffer(&m, &mut b);
    assert_eq!(
        b,
        vec![1, 0, 0, 0, 2, 0, 0, 0, 3, 0, 0, 0, b'a', b'b', 0, b'x', b'y', b'z', 0]
    );
}

#[test]
fn fill_keeps_bytes_past_wire_form() {
    let m = map_of(&[("", "")]);
    let mut b = vec![9u8; 14];
    hashmap_into_buffer(&m, &mut b);
    assert_eq!(b, vec![1, 0, 0, 0, 0, 0, 0, 0, 0, 0, 0, 0, 0, 0]);
    let m = map_of(&[("k", "v")]);
    let mut b = vec![7u8; 18];
    hashmap_into_buffer(&m, &mut b);
    assert_eq!(b, vec![1, 0, 0, 0, 1, 0, 0, 0, 1, 0, 0, 0, b'k', 0, b'v', 0, 7, 7]);
}

#[test]
fn buffer_size_of_two_pairs() {
    let m = map_of(&[(":path", "/value"), ("Host", "example.com")]);
    assert_eq!(buffer_size(&m), 4 + 16 + (5 + 1 + 6 + 1) + (4 + 1 + 11 + 1));
}

#[test]
fn round_trip_small() {
    let m = map_of(&[
        (":path", "/value"),
        (":method", "GET"),
        ("Host", "example.com"),
        ("", "empty key"),
        ("empty value", ""),
        ("ünïcødé", "値"),
    ]);
    let b = export_hashmap(&m).unwrap();
    assert_eq!(b.len(), buffer_size(&m));
    let d = buffer_into_hashmap(&b).unwrap();
    assert!(same(&m, &d));
}

#[test]
fn round_trip_ten_thousand_pairs() {
    let mut m = PairMap::new();
    for i in 0..10_000u32 {
        m.insert(format!("k{}", i), format!("value-{}", i * 7));
    }
    let b = export_hashmap(&m).unwrap();
    let d = buffer_into_hashmap(&b).unwrap();
    assert_eq!(d.len(), 10_000);
    assert!(same(&m, &d));
}

#[test]
fn truncated_header_is_an_error() {
    assert_eq!(
        buffer_into_hashmap(&[1, 0, 0, 0]).err(),
        Some(DecodeError::TruncatedHeader)
    );
    assert_eq!(
        buffer_into_hashmap(&[2, 0, 0, 0, 1, 0, 0, 0, 1, 0, 0, 0, b'a', 0, b'b', 0]).err(),
        Some(DecodeError::TruncatedHeader)
    );
}

#[test]
fn short_buffer_decodes_to_empty() {
    assert_eq!(buffer_into_hashmap(&[]).unwrap().len(), 0);
    assert_eq!(buffer_into_hashmap(&[5, 0, 0]).unwrap().len(), 0);
    assert_eq!(buffer_into_hashmap(&[0, 0, 0, 0, 7, 7]).unwrap().len(), 0);
}

#[test]
fn length_overrun_is_an_error() {
    let b = [1u8, 0, 0, 0, 5, 0, 0, 0, 1, 0, 0, 0, b'a', 0, b'b', 0];
    assert_eq!(buffer_into_hashmap(&b).err(), Some(DecodeError::LengthOverrun));
    let huge = [1u8, 0, 0, 0, 255, 255, 255, 255, 255, 255, 255, 255];
    assert_eq!(buffer_into_hashmap(&huge).err(), Some(DecodeError::LengthOverrun));
    let value_past_end = [1u8, 0, 0, 0, 1, 0, 0, 0, 2, 0, 0, 0, b'a', 0, b'b'];
    assert_eq!(
        buffer_into_hashmap(&value_past_end).err(),
        Some(DecodeError::LengthOverrun)
    );
}

#[test]
fn missing_last_terminator_is_accepted() {
    let short = [1u8, 0, 0, 0, 1, 0, 0, 0, 1, 0, 0, 0, b'a', 0, b'b'];
    let d = buffer_into_hashmap(&short).ok().unwrap();
    assert_eq!(d.len(), 1);
    assert_eq!(d.get(&"a".to_string()), Some(&"b".to_string()));
}

#[test]
fn invalid_text_is_an_error() {
    let b = [1u8, 0, 0, 0, 1, 0, 0, 0, 1, 0, 0, 0, 0xff, 0, b'b', 0];
    assert_eq!(buffer_into_hashmap(&b).err(), Some(DecodeError::InvalidText));
    let v = [1u8, 0, 0, 0, 1, 0, 0, 0, 2, 0, 0, 0, b'a', 0, 0xc3, 0x28, 0];
    assert_eq!(buffer_into_hashmap(&v).err(), Some(DecodeError::InvalidText));
}

#[test]
fn decoded_text_matches_bytes() {
    let b = [1u8, 0, 0, 0, 2, 0, 0, 0, 2, 0, 0, 0, 0xc3, 0xa9, 0, b'o', b'k', 0];
    let d = buffer_into_hashmap(&b).unwrap();
    assert_eq!(d.get(&"é".to_string()), Some(&"ok".to_string()));
}

#[test]
fn later_duplicate_key_wins() {
    let b = [
        2u8, 0, 0, 0, 1, 0, 0, 0, 1, 0, 0, 0, 1, 0, 0, 0, 1, 0, 0, 0, b'k', 0, b'1', 0, b'k', 0,
        b'2', 0,
    ];
    let d = buffer_into_hashmap(&b).unwrap();
    assert_eq!(d.len(), 1);
    assert_eq!(d.get(&"k".to_string()), Some(&"2".to_string()));
}

#[test]
fn pair_map_insert_replaces_in_place() {
    let mut m = map_of(&[("a", "1"), ("b", "2")]);
    m.insert("a".to_string(), "3".to_string());
    assert_eq!(m.len(), 2);
    let (k, v) = m.pair_at(0);
    assert_eq!((k.as_str(), v.as_str()), ("a", "3"));
    assert_eq!(m.get(&"c".to_string()), None);
}
