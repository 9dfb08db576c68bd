use columnar_core::column::Column;
use columnar_core::conditional::IfFunction;
use columnar_core::data_type::BaseType;
use columnar_core::data_type::DataType;
use columnar_core::error::ErrorKind;
use columnar_core::type_id::TypeID;

#[test]
fn test_if_selects_else_branch_on_false_and_null() {
    let f = IfFunction::try_create("if").unwrap();
    // predicate rows: true, false, null
    let predicate = Column::Nullable {
        inner: Box::new(Column::Bools { data: vec![true, false, false] }),
        validity: vec![true, true, false],
    };
    let lhs = Column::Ints { ty: TypeID::Int32, data: vec![1, 2, 3] };
    // else-branch rows: 10, 20, null
    let rhs = Column::Nullable {
        inner: Box::new(Column::Ints { ty: TypeID::Int32, data: vec![10, 20, 0] }),
        validity: vec![true, true, false],
    };
    let out = f.eval(&predicate, &lhs, &rhs).unwrap();
    assert_eq!(out.len(), 3);
    assert_eq!(out.int_at(0), (1, true));
    assert_eq!(out.int_at(1), (20, true));
    // the selected else-branch row is null, and stays null
    assert_eq!(out.int_at(2).1, false);
}

#[test]
fn test_if_preserves_selected_branch_nulls_only() {
    let f = IfFunction::try_create("if").unwrap();
    // the unselected then-branch row happens to be null; the selected
    // else-branch row is not
    let predicate = Column::Bools { data: vec![false] };
    let lhs = Column::Nullable {
        inner: Box::new(Column::Ints { ty: TypeID::Int32, data: vec![0] }),
        validity: vec![false],
    };
    let rhs = Column::Nullable {
        inner: Box::new(Column::Ints { ty: TypeID::Int32, data: vec![42] }),
        validity: vec![true],
    };
    let out = f.eval(&predicate, &lhs, &rhs).unwrap();
    assert_eq!(out.int_at(0), (42, true));
}

#[test]
fn test_if_return_type_merges_nullability() {
    let f = IfFunction::try_create("if").unwrap();
    let args = vec![
        DataType::new(BaseType::Boolean),
        DataType { base: BaseType::Int32, nullable: true },
        DataType::new(BaseType::Int32),
    ];
    let t = f.return_type(&args).unwrap();
    assert_eq!(t.base.id(), TypeID::Int32);
    assert!(t.nullable);

    let bad = vec![
        DataType::new(BaseType::Boolean),
        DataType::new(BaseType::Int32),
        DataType::new(BaseType::String),
    ];
    let err = f.return_type(&bad).unwrap_err();
    assert_eq!(err.kind, ErrorKind::BadDataValueType);
}

#[test]
fn test_if_requires_boolean_predicate() {
    let f = IfFunction::try_create("if").unwrap();
    let predicate = Column::Ints { ty: TypeID::Int32, data: vec![1] };
    let lhs = Column::Ints { ty: TypeID::Int32, data: vec![1] };
    let rhs = Column::Ints { ty: TypeID::Int32, data: vec![2] };
    let err = f.eval(&predicate, &lhs, &rhs).unwrap_err();
    assert_eq!(err.kind, ErrorKind::IllegalDataType);
}
