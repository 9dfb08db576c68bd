use columnar_core::binary::DataValueBinaryOperator;
use columnar_core::binary::ScalarBinaryExpression;
use columnar_core::column::Column;
use columnar_core::type_id::TypeID;

fn ints_of(c: &Column) -> Vec<i128> {
    let mut out = Vec::new();
    let mut i = 0;
    while i < c.len() {
        let (v, ok) = c.int_at(i);
        assert!(ok);
        out.push(v);
        i += 1;
    }
    out
}

fn constant(ty: TypeID, cell: i128, len: usize) -> Column {
    Column::Const { inner: Box::new(Column::Ints { ty, data: vec![cell] }), len }
}

#[test]
fn test_binary_expression_array_array() {
    let expr = ScalarBinaryExpression::new(DataValueBinaryOperator::Plus, TypeID::Int64);
    let l = Column::Ints { ty: TypeID::Int32, data: vec![1, 2, 3] };
    let r = Column::Ints { ty: TypeID::Int32, data: vec![10, 20, 30] };
    assert_eq!(ints_of(&expr.eval(&l, &r)), vec![11, 22, 33]);
}

#[test]
fn test_binary_expression_broadcasts_constants() {
    let expr = ScalarBinaryExpression::new(DataValueBinaryOperator::Minus, TypeID::Int64);
    let l = Column::Ints { ty: TypeID::Int32, data: vec![10, 20] };
    let r = constant(TypeID::Int32, 3, 2);
    assert_eq!(ints_of(&expr.eval(&l, &r)), vec![7, 17]);

    let l = constant(TypeID::Int32, 100, 2);
    let r = Column::Ints { ty: TypeID::Int32, data: vec![1, 2] };
    assert_eq!(ints_of(&expr.eval(&l, &r)), vec![99, 98]);

    let l = constant(TypeID::Int32, 8, 3);
    let r = constant(TypeID::Int32, 5, 3);
    assert_eq!(ints_of(&expr.eval(&l, &r)), vec![3, 3, 3]);
}

#[test]
fn test_operator_symbols() {
    assert_eq!(DataValueBinaryOperator::Plus.symbol(), "plus");
    assert_eq!(DataValueBinaryOperator::Minus.symbol(), "minus");
    assert_eq!(DataValueBinaryOperator::Div.symbol(), "divide");
}
