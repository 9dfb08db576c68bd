use columnar_core::block::DataField;
use columnar_core::column::Column;
use columnar_core::convert::convert2_new_column;
use columnar_core::convert::convert2_old_column;
use columnar_core::convert::convert2_old_column_with_field;
use columnar_core::convert::OldDataColumn;
use columnar_core::convert::OldDataColumnWithField;
use columnar_core::data_type::BaseType;
use columnar_core::data_type::DataType;
use columnar_core::error::ErrorKind;
use columnar_core::type_id::TypeID;
use columnar_core::value::DataValue;

fn nullable_field(name: &str, base: BaseType) -> DataField {
    DataField::new(name.to_string(), DataType { base, nullable: true })
}

#[test]
fn test_convert_synthesizes_all_valid_bitmap() {
    let old = OldDataColumnWithField {
        column: OldDataColumn::Array {
            values: Column::Ints { ty: TypeID::Int32, data: vec![1, 2, 3] },
            validity: None,
        },
        field: nullable_field("a", BaseType::Int32),
    };
    let out = convert2_new_column(old).unwrap();
    assert!(out.column.is_nullable());
    assert_eq!(out.column.len(), 3);
    for i in 0..3 {
        assert!(out.column.valid_at(i));
    }
    assert_eq!(out.column.int_at(1), (2, true));
}

#[test]
fn test_convert_keeps_existing_bitmap() {
    let old = OldDataColumnWithField {
        column: OldDataColumn::Array {
            values: Column::Ints { ty: TypeID::Int32, data: vec![1, 2] },
            validity: Some(vec![true, false]),
        },
        field: nullable_field("a", BaseType::Int32),
    };
    let out = convert2_new_column(old).unwrap();
    assert!(out.column.is_nullable());
    assert_eq!(out.column.int_at(0), (1, true));
    assert_eq!(out.column.int_at(1).1, false);
}

#[test]
fn test_convert_constant_stays_constant() {
    let old = OldDataColumnWithField {
        column: OldDataColumn::Constant { value: DataValue::Int64(7), size: 3 },
        field: DataField::new("a".to_string(), DataType::new(BaseType::Int64)),
    };
    let out = convert2_new_column(old).unwrap();
    assert!(out.column.is_const());
    assert_eq!(out.column.len(), 3);
    assert_eq!(out.column.int_at(2), (7, true));
}

#[test]
fn test_convert_null_constant_is_rejected() {
    let old = OldDataColumnWithField {
        column: OldDataColumn::Constant { value: DataValue::Null, size: 3 },
        field: DataField::new("a".to_string(), DataType::new(BaseType::Int64)),
    };
    let err = convert2_new_column(old).unwrap_err();
    assert_eq!(err.kind, ErrorKind::IllegalDataType);
}

#[test]
fn test_convert_round_trip() {
    // constant-ness survives the round trip
    let constant = Column::Const {
        inner: Box::new(Column::Ints { ty: TypeID::UInt64, data: vec![9] }),
        len: 4,
    };
    let old = convert2_old_column(constant);
    assert!(matches!(
        old,
        OldDataColumn::Constant { value: DataValue::UInt64(9), size: 4 }
    ));

    // a nullable wrapper becomes an array with its bitmap
    let nullable = Column::Nullable {
        inner: Box::new(Column::Strs { data: vec!["x".to_string(), "y".to_string()] }),
        validity: vec![true, false],
    };
    let field = nullable_field("s", BaseType::String);
    let old = convert2_old_column_with_field(columnar_core::block::ColumnWithField::new(
        nullable, field,
    ));
    match &old.column {
        OldDataColumn::Array { values, validity } => {
            assert_eq!(values.len(), 2);
            assert_eq!(validity, &Some(vec![true, false]));
        }
        _ => panic!("a nullable wrapper must become a legacy array"),
    }
    // and back again, preserving the masked rows
    let back = convert2_new_column(old).unwrap();
    assert!(back.column.is_nullable());
    assert_eq!(back.column.str_at(0), ("x".to_string(), true));
    assert_eq!(back.column.str_at(1).1, false);
}
