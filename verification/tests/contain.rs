use columnar_core::column::Column;
use columnar_core::contain::contain;
use columnar_core::type_id::TypeID;

fn bools_of(c: &Column) -> Vec<bool> {
    let mut out = Vec::new();
    let mut i = 0;
    while i < c.len() {
        let (v, ok) = c.bool_at(i);
        assert!(ok);
        out.push(v);
        i += 1;
    }
    out
}

#[test]
fn test_contain() {
    let df_uint16_array = Column::Ints { ty: TypeID::UInt16, data: vec![1, 2, 3] };
    let df_list = Column::Ints { ty: TypeID::UInt16, data: vec![1, 2, 5] };

    let boolean = contain(&df_uint16_array, &df_list).unwrap();
    assert_eq!(vec![true, true, false], bools_of(&boolean));

    let df_utf8_array = Column::Strs {
        data: vec!["1a".to_string(), "2b".to_string(), "3c".to_string(), "4d".to_string()],
    };
    let df_list = Column::Strs { data: vec!["2b".to_string(), "4d".to_string()] };

    let boolean = contain(&df_utf8_array, &df_list).unwrap();
    assert_eq!(vec![false, true, false, true], bools_of(&boolean));
}

#[test]
fn test_contain_shape_mismatch() {
    let ints = Column::Ints { ty: TypeID::UInt16, data: vec![1] };
    let strs = Column::Strs { data: vec!["1a".to_string()] };
    let err = contain(&ints, &strs).unwrap_err();
    assert_eq!(err.kind, columnar_core::error::ErrorKind::DataStructMismatch);
}
