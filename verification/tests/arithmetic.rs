use columnar_core::arithmetic::ArithmeticDivFunction;
use columnar_core::arithmetic::ArithmeticMinusFunction;
use columnar_core::arithmetic::ArithmeticPlusFunction;
use columnar_core::column::Column;
use columnar_core::data_type::BaseType;
use columnar_core::data_type::DataType;
use columnar_core::error::ErrorKind;
use columnar_core::monotonicity::Monotonicity;
use columnar_core::type_id::TypeID;

fn ints(ty: TypeID, cells: Vec<i128>) -> Column {
    Column::Ints { ty, data: cells }
}

fn ints_of(c: &Column) -> Vec<i128> {
    let mut out = Vec::new();
    let mut i = 0;
    while i < c.len() {
        let (v, ok) = c.int_at(i);
        assert!(ok);
        out.push(v);
        i += 1;
    }
    out
}

#[test]
fn test_plus_coercion_widens() {
    let args = vec![DataType::new(BaseType::Int32), DataType::new(BaseType::Int32)];
    let f = ArithmeticPlusFunction::try_create_func("plus", &args).unwrap();
    assert_eq!(f.result_type.base.id(), TypeID::Int64);

    let args = vec![DataType::new(BaseType::UInt8), DataType::new(BaseType::UInt8)];
    let f = ArithmeticPlusFunction::try_create_func("plus", &args).unwrap();
    assert_eq!(f.result_type.base.id(), TypeID::UInt16);

    let args = vec![DataType::new(BaseType::UInt32), DataType::new(BaseType::Int8)];
    let f = ArithmeticPlusFunction::try_create_func("plus", &args).unwrap();
    assert_eq!(f.result_type.base.id(), TypeID::Int64);
}

#[test]
fn test_plus_exact_within_promoted_width() {
    let args = vec![DataType::new(BaseType::UInt8), DataType::new(BaseType::UInt8)];
    let f = ArithmeticPlusFunction::try_create_func("plus", &args).unwrap();
    let l = ints(TypeID::UInt8, vec![255, 200]);
    let r = ints(TypeID::UInt8, vec![255, 1]);
    let out = f.eval(&l, &r);
    assert_eq!(ints_of(&out), vec![510, 201]);
}

#[test]
fn test_plus_wraps_at_eight_bytes() {
    let args = vec![DataType::new(BaseType::Int64), DataType::new(BaseType::Int64)];
    let f = ArithmeticPlusFunction::try_create_func("plus", &args).unwrap();
    assert_eq!(f.result_type.base.id(), TypeID::Int64);
    let l = ints(TypeID::Int64, vec![i64::MAX as i128]);
    let r = ints(TypeID::Int64, vec![1]);
    let out = f.eval(&l, &r);
    assert_eq!(ints_of(&out), vec![i64::MIN as i128]);
}

#[test]
fn test_minus_signed_result() {
    let args = vec![DataType::new(BaseType::UInt8), DataType::new(BaseType::UInt8)];
    let f = ArithmeticMinusFunction::try_create_func("minus", &args).unwrap();
    assert_eq!(f.result_type.base.id(), TypeID::Int16);
    let l = ints(TypeID::UInt8, vec![3]);
    let r = ints(TypeID::UInt8, vec![7]);
    let out = f.eval(&l, &r);
    assert_eq!(ints_of(&out), vec![-4]);
}

#[test]
fn test_date_arithmetic_result_types() {
    let args = vec![DataType::new(BaseType::Date16), DataType::new(BaseType::Int32)];
    let f = ArithmeticPlusFunction::try_create_func("plus", &args).unwrap();
    assert_eq!(f.result_type.base.id(), TypeID::Date16);

    let args = vec![DataType::new(BaseType::Date16), DataType::new(BaseType::Date16)];
    let f = ArithmeticMinusFunction::try_create_func("minus", &args).unwrap();
    assert_eq!(f.result_type.base.id(), TypeID::Int32);

    let l = ints(TypeID::Date16, vec![100]);
    let r = ints(TypeID::Int32, vec![3]);
    let plus_args = vec![DataType::new(BaseType::Date16), DataType::new(BaseType::Int32)];
    let f = ArithmeticPlusFunction::try_create_func("plus", &plus_args).unwrap();
    let out = f.eval(&l, &r);
    assert_eq!(ints_of(&out), vec![103]);
}

#[test]
fn test_interval_is_rejected() {
    let args = vec![
        DataType::new(BaseType::Interval(columnar_core::data_type::IntervalType {})),
        DataType::new(BaseType::Int32),
    ];
    let err = ArithmeticPlusFunction::try_create_func("plus", &args).unwrap_err();
    assert_eq!(err.kind, ErrorKind::BadDataValueType);
}

#[test]
fn test_div_yields_double_width_float_type() {
    let args = vec![DataType::new(BaseType::Int32), DataType::new(BaseType::Int32)];
    let f = ArithmeticDivFunction::try_create_func("divide", &args).unwrap();
    assert_eq!(f.result_type.base.id(), TypeID::Float64);

    let args = vec![DataType::new(BaseType::String), DataType::new(BaseType::Int32)];
    let err = ArithmeticDivFunction::try_create_func("divide", &args).unwrap_err();
    assert_eq!(err.kind, ErrorKind::BadDataValueType);
}

#[test]
fn test_plus_null_propagation() {
    let args = vec![DataType::new(BaseType::Int32), DataType::new(BaseType::Int32)];
    let f = ArithmeticPlusFunction::try_create_func("plus", &args).unwrap();
    let l = Column::Nullable {
        inner: Box::new(ints(TypeID::Int32, vec![1, 2])),
        validity: vec![true, false],
    };
    let r = ints(TypeID::Int32, vec![10, 20]);
    let out = f.eval(&l, &r);
    assert_eq!(out.int_at(0), (11, true));
    assert_eq!(out.int_at(1).1, false);
}

#[test]
fn test_plus_monotonicity_rules() {
    let inc = Monotonicity::create(true, true, false);
    let dec = Monotonicity::create(true, false, false);
    let cst = Monotonicity::create(true, true, true);

    // a constant side passes the other side's fact through
    let m = ArithmeticPlusFunction::get_monotonicity(&[inc, cst]).unwrap();
    assert_eq!(m, inc);
    let m = ArithmeticPlusFunction::get_monotonicity(&[cst, dec]).unwrap();
    assert_eq!(m, dec);

    // opposite directions yield no claim
    let m = ArithmeticPlusFunction::get_monotonicity(&[inc, dec]).unwrap();
    assert!(!m.is_monotonic);

    // agreement keeps the direction
    let m = ArithmeticPlusFunction::get_monotonicity(&[inc, inc]).unwrap();
    assert!(m.is_monotonic && m.is_positive && !m.is_constant);
}

#[test]
fn test_minus_monotonicity_rules() {
    let inc = Monotonicity::create(true, true, false);
    let cst = Monotonicity::create(true, true, true);

    // f - constant keeps f's fact
    let m = ArithmeticMinusFunction::get_monotonicity(&[inc, cst]).unwrap();
    assert_eq!(m, inc);

    // constant - f flips the direction
    let m = ArithmeticMinusFunction::get_monotonicity(&[cst, inc]).unwrap();
    assert!(m.is_monotonic && !m.is_positive && !m.is_constant);

    // same direction on both sides yields no claim
    let m = ArithmeticMinusFunction::get_monotonicity(&[inc, inc]).unwrap();
    assert!(!m.is_monotonic);
}

#[test]
fn test_div_monotonicity_claims_nothing() {
    let inc = Monotonicity::create(true, true, false);
    let m = ArithmeticDivFunction::get_monotonicity(&[inc, inc]).unwrap();
    assert!(!m.is_monotonic);
}

#[test]
fn test_unsupported_arithmetic_message() {
    let args = vec![DataType::new(BaseType::String), DataType::new(BaseType::Int32)];
    let err = ArithmeticPlusFunction::try_create_func("plus", &args).unwrap_err();
    assert_eq!(
        err.message(),
        "DataValue Error: Unsupported arithmetic (String) plus (Int32)"
    );
    let err = ArithmeticMinusFunction::try_create_func("minus", &args).unwrap_err();
    assert_eq!(
        err.message(),
        "DataValue Error: Unsupported arithmetic (String) minus (Int32)"
    );
}

#[test]
fn test_float_operands_resolve_to_double_width_type() {
    let args = vec![DataType::new(BaseType::Float64), DataType::new(BaseType::Int32)];
    let f = ArithmeticPlusFunction::try_create_func("plus", &args).unwrap();
    assert_eq!(f.result_type.base.id(), TypeID::Float64);

    let args = vec![DataType::new(BaseType::Float32), DataType::new(BaseType::Float32)];
    let f = ArithmeticMinusFunction::try_create_func("minus", &args).unwrap();
    assert_eq!(f.result_type.base.id(), TypeID::Float64);

    let args = vec![DataType::new(BaseType::Float64), DataType::new(BaseType::Float64)];
    let f = ArithmeticDivFunction::try_create_func("divide", &args).unwrap();
    assert_eq!(f.result_type.base.id(), TypeID::Float64);

    // a date still pairs only with an integer
    let args = vec![DataType::new(BaseType::Date16), DataType::new(BaseType::Float64)];
    let err = ArithmeticPlusFunction::try_create_func("plus", &args).unwrap_err();
    assert_eq!(err.kind, ErrorKind::BadDataValueType);
}
