use columnar_core::data_type::BaseType;
use columnar_core::data_type::DataType;
use columnar_core::data_type::DateTime32Type;
use columnar_core::data_type::IntervalType;
use columnar_core::error::ErrorKind;
use columnar_core::function_common::assert_numeric;
use columnar_core::type_id::TypeID;
use columnar_core::value::DataValue;

#[test]
fn test_datetime32_basics() {
    let t = DateTime32Type::create(Some("Europe/Paris".to_string()));
    assert_eq!(t.tz(), Some(&"Europe/Paris".to_string()));
    assert_eq!(t.data_type_id(), TypeID::DateTime32);
    assert_eq!(t.name(), "DateTime32");
    assert_eq!(t.aliases(), "DateTime");
    assert!(matches!(t.default_value(), DataValue::UInt64(0)));

    let dt = DateTime32Type::arc(None);
    assert_eq!(dt.data_type_id(), TypeID::DateTime32);
    assert!(!dt.is_nullable());
}

#[test]
fn test_datetime32_constant_column_truncates() {
    let t = DateTime32Type::create(None);
    let big = 0x1_0000_0000u64 + 42;
    let col = t
        .create_constant_column(&DataValue::UInt64(big), 3)
        .unwrap();
    assert_eq!(col.len(), 3);
    assert!(col.is_const());
    assert_eq!(col.int_at(0), (42, true));
    assert_eq!(col.int_at(2), (42, true));

    let err = t
        .create_constant_column(&DataValue::String("now".to_string()), 1)
        .unwrap_err();
    assert_eq!(err.kind, ErrorKind::IllegalDataType);
}

#[test]
fn test_datetime32_create_column() {
    let t = DateTime32Type::create(None);
    let col = t
        .create_column(&vec![DataValue::UInt64(1), DataValue::Int64(2)])
        .unwrap();
    assert_eq!(col.len(), 2);
    assert_eq!(col.int_at(0), (1, true));
    assert_eq!(col.int_at(1), (2, true));

    let err = t
        .create_column(&vec![DataValue::Boolean(true)])
        .unwrap_err();
    assert_eq!(err.kind, ErrorKind::IllegalDataType);
}

#[test]
fn test_datetime32_arrow_meta_and_timezone() {
    let t = DateTime32Type::create(Some("UTC".to_string()));
    let meta = t.custom_arrow_meta();
    assert_eq!(meta.len(), 2);
    assert_eq!(meta[0].0, "ARROW:extension:name");
    assert_eq!(meta[0].1, "DateTime32");
    assert_eq!(meta[1].0, "ARROW:extension:metadata");
    assert_eq!(meta[1].1, "UTC");

    // the default serializer timezone is UTC
    let t = DateTime32Type::create(None);
    assert_eq!(t.serializer_timezone().unwrap(), "UTC");
    // a real zone name is accepted
    let t = DateTime32Type::create(Some("Europe/Paris".to_string()));
    assert_eq!(t.serializer_timezone().unwrap(), "Europe/Paris");
    // an unknown name is rejected
    let t = DateTime32Type::create(Some("Not/AZone".to_string()));
    assert_eq!(
        t.serializer_timezone().unwrap_err().kind,
        ErrorKind::IllegalDataType
    );
}

#[test]
fn test_interval_type() {
    let t = IntervalType {};
    assert_eq!(t.data_type_id(), TypeID::Interval);
    assert!(matches!(t.default_value(), DataValue::Int64(0)));
    let col = t.create_constant_column(&DataValue::Int64(-5), 2).unwrap();
    assert_eq!(col.int_at(0), (-5, true));
    assert_eq!(col.len(), 2);
    let col = t
        .create_column(&vec![DataValue::Int64(1), DataValue::Int64(-2)])
        .unwrap();
    assert_eq!(col.int_at(1), (-2, true));
}

#[test]
fn test_type_equality() {
    let a = DateTime32Type::arc(Some("UTC".to_string()));
    let b = DateTime32Type::arc(Some("UTC".to_string()));
    let c = DateTime32Type::arc(Some("Asia/Tokyo".to_string()));
    assert!(a.equals(&b));
    assert!(!a.equals(&c));
    assert!(!a.equals(&DataType::new(BaseType::Int32)));
    // nullability is part of the identity
    let n = DataType { base: BaseType::Int32, nullable: true };
    assert!(!n.equals(&DataType::new(BaseType::Int32)));
    assert!(n.remove_nullable().equals(&DataType::new(BaseType::Int32)));
}

#[test]
fn test_assert_numeric() {
    assert!(assert_numeric(&DataType::new(BaseType::UInt32)).is_ok());
    let err = assert_numeric(&DataType::new(BaseType::String)).unwrap_err();
    assert_eq!(err.kind, ErrorKind::IllegalDataType);
    assert_eq!(err.message(), "Expected a numeric type, but got String");
}

#[test]
fn test_type_id_widths() {
    assert_eq!(TypeID::UInt8.fixed_byte_width(), 1);
    assert_eq!(TypeID::Date16.fixed_byte_width(), 2);
    assert_eq!(TypeID::DateTime32.fixed_byte_width(), 4);
    assert_eq!(TypeID::Interval.fixed_byte_width(), 8);
    assert_eq!(TypeID::String.fixed_byte_width(), 0);
    assert!(TypeID::DateTime32.is_date_or_date_time());
}
