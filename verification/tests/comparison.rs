use columnar_core::column::Column;
use columnar_core::comparison::ComparisonLtFunction;
use columnar_core::type_id::TypeID;

#[test]
fn test_less_than_rows() {
    let f = ComparisonLtFunction::try_create_func("<").unwrap();
    let l = Column::Ints { ty: TypeID::Int32, data: vec![1, 5, -3] };
    let r = Column::Ints { ty: TypeID::Int32, data: vec![2, 5, -4] };
    let out = f.eval(&l, &r);
    assert_eq!(out.bool_at(0), (true, true));
    assert_eq!(out.bool_at(1), (false, true));
    assert_eq!(out.bool_at(2), (false, true));
}

#[test]
fn test_less_than_null_propagation() {
    let f = ComparisonLtFunction::try_create_func("<").unwrap();
    let l = Column::Nullable {
        inner: Box::new(Column::Ints { ty: TypeID::Int32, data: vec![1, 0] }),
        validity: vec![true, false],
    };
    let r = Column::Ints { ty: TypeID::Int32, data: vec![2, 2] };
    let out = f.eval(&l, &r);
    assert_eq!(out.bool_at(0), (true, true));
    assert_eq!(out.bool_at(1).1, false);
}
