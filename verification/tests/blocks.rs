use columnar_core::block::schemas_equal;
use columnar_core::block::DataBlock;
use columnar_core::block::DataField;
use columnar_core::column::Column;
use columnar_core::data_type::BaseType;
use columnar_core::data_type::DataType;
use columnar_core::error::ErrorKind;
use columnar_core::type_id::TypeID;

fn int_field(name: &str) -> DataField {
    DataField::new(name.to_string(), DataType::new(BaseType::Int32))
}

fn int_block(name: &str, cells: Vec<i128>) -> DataBlock {
    DataBlock::create(
        vec![int_field(name)],
        vec![Column::Ints { ty: TypeID::Int32, data: cells }],
    )
}

fn ints_of(c: &Column) -> Vec<i128> {
    let mut out = Vec::new();
    let mut i = 0;
    while i < c.len() {
        let (v, ok) = c.int_at(i);
        assert!(ok);
        out.push(v);
        i += 1;
    }
    out
}

#[test]
fn test_concat_blocks_values() {
    let blocks = vec![
        int_block("a", vec![1, 2]),
        int_block("a", vec![3]),
        int_block("a", vec![4, 5, 6]),
    ];
    let merged = DataBlock::concat_blocks(&blocks).unwrap();
    assert_eq!(merged.num_rows(), 6);
    assert_eq!(merged.num_columns(), 1);
    assert!(schemas_equal(merged.schema(), blocks[0].schema()));
    assert_eq!(ints_of(merged.column(0)), vec![1, 2, 3, 4, 5, 6]);
}

#[test]
fn test_concat_blocks_empty_input() {
    let blocks: Vec<DataBlock> = vec![];
    let err = DataBlock::concat_blocks(&blocks).unwrap_err();
    assert_eq!(err.kind, ErrorKind::EmptyData);
    assert_eq!(err.message(), "Can't concat empty blocks");
}

#[test]
fn test_concat_blocks_schema_mismatch() {
    let blocks = vec![int_block("a", vec![1]), int_block("b", vec![2])];
    let err = DataBlock::concat_blocks(&blocks).unwrap_err();
    assert_eq!(err.kind, ErrorKind::DataStructMismatch);
    assert_eq!(err.message(), "Schema not matched");
}

#[test]
fn test_concat_blocks_nullable_column() {
    let field = DataField::new(
        "a".to_string(),
        DataType { base: BaseType::Int32, nullable: true },
    );
    let col1 = Column::Nullable {
        inner: Box::new(Column::Ints { ty: TypeID::Int32, data: vec![7, 0] }),
        validity: vec![true, false],
    };
    let col2 = Column::Ints { ty: TypeID::Int32, data: vec![9] };
    let b1 = DataBlock::create(vec![field], vec![col1]);
    let field2 = DataField::new(
        "a".to_string(),
        DataType { base: BaseType::Int32, nullable: true },
    );
    let b2 = DataBlock::create(vec![field2], vec![col2]);
    let merged = DataBlock::concat_blocks(&vec![b1, b2]).unwrap();
    let c = merged.column(0);
    assert_eq!(c.len(), 3);
    assert_eq!(c.int_at(0), (7, true));
    assert_eq!(c.int_at(1).1, false);
    assert_eq!(c.int_at(2), (9, true));
}
