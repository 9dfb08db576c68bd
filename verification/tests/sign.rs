use columnar_core::column::Column;
use columnar_core::data_type::BaseType;
use columnar_core::data_type::DataType;
use columnar_core::sign::SignFunction;
use columnar_core::type_id::TypeID;

fn signs_of(c: &Column) -> Vec<i128> {
    let mut out = Vec::new();
    let mut i = 0;
    while i < c.len() {
        let (v, ok) = c.int_at(i);
        assert!(ok);
        out.push(v);
        i += 1;
    }
    out
}

#[test]
fn test_sign_function() {
    let sign_f = SignFunction::try_create("sign").unwrap();

    // positive int
    let col = Column::Ints { ty: TypeID::Int8, data: vec![11] };
    assert_eq!(signs_of(&sign_f.eval(&col)), vec![1]);

    // negative int
    let col = Column::Ints { ty: TypeID::Int8, data: vec![-11] };
    assert_eq!(signs_of(&sign_f.eval(&col)), vec![-1]);

    // zero int
    let col = Column::Ints { ty: TypeID::Int8, data: vec![0] };
    assert_eq!(signs_of(&sign_f.eval(&col)), vec![0]);

    // with null
    let col = Column::Nullable {
        inner: Box::new(Column::Ints { ty: TypeID::Int8, data: vec![0, 0] }),
        validity: vec![true, false],
    };
    let out = sign_f.eval(&col);
    assert_eq!(out.int_at(0), (0, true));
    assert_eq!(out.int_at(1).1, false);

    // int as string
    let err = sign_f.return_type(&[DataType::new(BaseType::String)]).unwrap_err();
    assert_eq!(err.message(), "Expected a numeric type, but got String");

    // every integer width maps positive values to one
    for ty in [
        TypeID::Int16,
        TypeID::Int32,
        TypeID::Int64,
        TypeID::UInt8,
        TypeID::UInt16,
        TypeID::UInt32,
        TypeID::UInt64,
    ] {
        let col = Column::Ints { ty, data: vec![11] };
        assert_eq!(signs_of(&sign_f.eval(&col)), vec![1]);
    }

    // the declared result type is a signed byte
    let t = sign_f.return_type(&[DataType::new(BaseType::Int64)]).unwrap();
    assert_eq!(t.base.id(), TypeID::Int8);
}
