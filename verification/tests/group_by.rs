use columnar_core::data_type::BaseType;
use columnar_core::data_type::DataType;
use columnar_core::error::ErrorKind;
use columnar_core::group_by::choose_hash_method;
use columnar_core::group_by::pack_group_key;
use columnar_core::group_by::serialize_group_key;
use columnar_core::group_by::unpack_group_key;
use columnar_core::group_by::GroupKeyCell;
use columnar_core::group_by::HashMethodKind;
use columnar_core::group_by::LongerFixedKeysAggregatorState;
use columnar_core::group_by::SerializedKeysAggregatorState;
use columnar_core::group_by::ShortFixedKeysAggregatorState;

#[test]
fn test_choose_hash_method_by_width() {
    let t = |b: BaseType| DataType::new(b);
    assert_eq!(
        choose_hash_method(&vec![t(BaseType::UInt8)]).unwrap(),
        HashMethodKind::KeysU8
    );
    assert_eq!(
        choose_hash_method(&vec![t(BaseType::UInt8), t(BaseType::UInt8)]).unwrap(),
        HashMethodKind::KeysU16
    );
    assert_eq!(
        choose_hash_method(&vec![t(BaseType::UInt16), t(BaseType::UInt8)]).unwrap(),
        HashMethodKind::KeysU32
    );
    assert_eq!(
        choose_hash_method(&vec![t(BaseType::Int64)]).unwrap(),
        HashMethodKind::KeysU64
    );
    assert_eq!(
        choose_hash_method(&vec![t(BaseType::Int64), t(BaseType::UInt8)]).unwrap(),
        HashMethodKind::Serializer
    );
    assert_eq!(
        choose_hash_method(&vec![t(BaseType::String), t(BaseType::UInt8)]).unwrap(),
        HashMethodKind::Serializer
    );
    assert_eq!(
        choose_hash_method(&vec![]).unwrap_err().kind,
        ErrorKind::EmptyData
    );
    assert_eq!(
        choose_hash_method(&vec![t(BaseType::Float64)]).unwrap_err().kind,
        ErrorKind::BadDataValueType
    );
}

#[test]
fn test_fixed_keys_identical_rows_identical_keys() {
    let widths = vec![2usize, 1usize];
    let k1 = pack_group_key(&vec![300, 7], &widths);
    let k2 = pack_group_key(&vec![300, 7], &widths);
    assert_eq!(k1, k2);
    // the first column occupies the high bits
    assert_eq!(k1, 300 * 256 + 7);
    // distinct rows give distinct keys
    let k3 = pack_group_key(&vec![301, 7], &widths);
    let k4 = pack_group_key(&vec![300, 8], &widths);
    assert_ne!(k1, k3);
    assert_ne!(k1, k4);
}

#[test]
fn test_fixed_keys_round_trip() {
    let widths = vec![2usize, 1usize, 4usize];
    let cells: Vec<i128> = vec![40000, 200, 3_000_000_000];
    let key = pack_group_key(&cells, &widths);
    let back = unpack_group_key(key, &widths);
    assert_eq!(back, vec![40000u64, 200u64, 3_000_000_000u64]);
}

#[test]
fn test_fixed_keys_negative_values_distinct() {
    // a signed column: -1 and 255 are different values of an Int16 column
    // and must produce different keys
    let widths = vec![2usize];
    let k_neg = pack_group_key(&vec![-1], &widths);
    let k_pos = pack_group_key(&vec![255], &widths);
    assert_ne!(k_neg, k_pos);
    assert_eq!(k_neg, 0xffff);
}

#[test]
fn test_serialized_keys_distinct_strings() {
    let row = |s: &str| vec![GroupKeyCell::Bytes { data: s.as_bytes().to_vec() }];
    let k_1a = serialize_group_key(&row("1a"));
    let k_2b = serialize_group_key(&row("2b"));
    let k_4d = serialize_group_key(&row("4d"));
    assert_ne!(k_1a, k_2b);
    assert_ne!(k_1a, k_4d);
    assert_ne!(k_2b, k_4d);
    // identical rows always serialize identically
    assert_eq!(k_2b, serialize_group_key(&row("2b")));
}

#[test]
fn test_serialized_keys_mixed_row() {
    let row = vec![
        GroupKeyCell::Fixed { width: 2, bits: 0x0102 },
        GroupKeyCell::Bytes { data: b"ab".to_vec() },
    ];
    let key = serialize_group_key(&row);
    // two big-endian bytes, an eight-byte length, then the bytes
    assert_eq!(key, vec![1, 2, 0, 0, 0, 0, 0, 0, 0, 2, b'a', b'b']);
}

#[test]
fn test_short_fixed_state_same_key_same_slot() {
    let mut state = ShortFixedKeysAggregatorState::create(256);
    let s5 = state.entity(5);
    let s7 = state.entity(7);
    let s5_again = state.entity(5);
    assert_eq!(s5, s5_again);
    assert_ne!(s5, s7);
}

#[test]
fn test_longer_fixed_state_same_key_same_slot() {
    let mut state = LongerFixedKeysAggregatorState::create();
    let a = state.entity(3_000_000_000);
    let b = state.entity(17);
    let a_again = state.entity(3_000_000_000);
    assert_eq!(a, a_again);
    assert_ne!(a, b);
}

#[test]
fn test_serialized_state_same_bytes_same_slot() {
    let mut state = SerializedKeysAggregatorState::create();
    let k1 = b"2b".to_vec();
    let k2 = b"4d".to_vec();
    let a = state.entity_by_bytes(&k1);
    let b = state.entity_by_bytes(&k2);
    let a_again = state.entity_by_bytes(&k1);
    assert_eq!(a, a_again);
    assert_ne!(a, b);
}

#[test]
fn test_fixed_keys_full_word_column() {
    // a single eight-byte column occupies the whole key
    let widths = vec![8usize];
    let cells: Vec<i128> = vec![-2]; // an Int64 cell near the top of the space
    let key = pack_group_key(&cells, &widths);
    assert_eq!(key, u64::MAX - 1);
    let back = unpack_group_key(key, &widths);
    assert_eq!(back, vec![u64::MAX - 1]);
}
