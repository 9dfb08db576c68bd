use columnar_core::data_type::BaseType;
use columnar_core::data_type::DataType;
use columnar_core::error::ErrorKind;
use columnar_core::factory::Function2;
use columnar_core::factory::Function2Factory;
use columnar_core::type_id::TypeID;

#[test]
fn test_lookup_is_case_insensitive() {
    let factory = Function2Factory::instance();
    let args = vec![DataType::new(BaseType::Int64)];
    assert!(matches!(
        factory.get("sign", &args).unwrap(),
        Function2::Sign(_)
    ));
    assert!(matches!(
        factory.get("SIGN", &args).unwrap(),
        Function2::Sign(_)
    ));
    assert!(matches!(
        factory.get("If", &vec![]).unwrap(),
        Function2::If(_)
    ));
}

#[test]
fn test_unknown_function_error() {
    let factory = Function2Factory::instance();
    let err = factory.get("no_such_function", &vec![]).unwrap_err();
    assert_eq!(err.kind, ErrorKind::UnknownFunction);
    assert_eq!(err.message(), "Unsupported Function: no_such_function");
}

#[test]
fn test_arithmetic_registry_receives_argument_types() {
    let factory = Function2Factory::instance();
    let args = vec![DataType::new(BaseType::Int32), DataType::new(BaseType::Int32)];
    match factory.get("+", &args).unwrap() {
        Function2::BinaryArithmetic(f) => {
            assert_eq!(f.result_type.base.id(), TypeID::Int64);
        }
        _ => panic!("plus must resolve to an arithmetic kernel"),
    }
    // unsupported combination fails fast
    let bad = vec![DataType::new(BaseType::String), DataType::new(BaseType::Int32)];
    let err = factory.get("+", &bad).unwrap_err();
    assert_eq!(err.kind, ErrorKind::BadDataValueType);
}

#[test]
fn test_get_features() {
    let factory = Function2Factory::instance();
    let lt = factory.get_features("<").unwrap();
    assert!(lt.is_deterministic);
    assert!(lt.is_bool_func);
    assert_eq!(lt.num_arguments, 2);
    assert_eq!(lt.negative_function_name.as_deref(), Some(">="));

    let plus = factory.get_features("+").unwrap();
    assert!(plus.is_deterministic);
    assert!(plus.maybe_monotonic);
    assert_eq!(plus.num_arguments, 2);

    let err = factory.get_features("no_such_function").unwrap_err();
    assert_eq!(err.kind, ErrorKind::UnknownFunction);
}

#[test]
fn test_check_and_registered_names() {
    let factory = Function2Factory::instance();
    assert!(factory.check("if"));
    assert!(factory.check("-"));
    assert!(!factory.check("no_such_function"));
    let names = factory.registered_names();
    assert!(names.contains(&"if".to_string()));
    assert!(names.contains(&"sign".to_string()));
    assert!(names.contains(&"+".to_string()));
    assert_eq!(names.len(), 6);
}
