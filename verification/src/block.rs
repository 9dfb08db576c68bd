//! A named, ordered collection of equal-length columns sharing one schema,
//! and column-wise concatenation of such blocks.

use vstd::prelude::*;
use vstd::string::StringExecFns;

use crate::column::concat_values;
use crate::column::concat_columns;
use crate::column::Column;
use crate::column::Shape;
use crate::column::Val;
use crate::data_type::type_eq;
use crate::data_type::DataType;
use crate::error::ErrorCode;
use crate::error::ErrorKind;
use crate::type_id::TypeID;

verus! {

/// A named column slot of a schema.
#[derive(Debug)]
pub struct DataField {
    pub name: String,
    pub data_type: DataType,
}

/// Equality of fields: same name and same type.
pub open spec fn field_eq(a: DataField, b: DataField) -> bool {
    a.name@ == b.name@ && type_eq(a.data_type, b.data_type)
}

/// Equality of schemas: same field order, names and types.
pub open spec fn schema_eq(a: Seq<DataField>, b: Seq<DataField>) -> bool {
    a.len() == b.len() && (forall|i: int| 0 <= i < a.len() ==> field_eq(#[trigger] a[i], b[i]))
}

impl DataField {
    pub fn new(name: String, data_type: DataType) -> (r: DataField)
        ensures
            r.name == name,
            r.data_type == data_type,
    {
        DataField { name, data_type }
    }

    /// A structural copy of the field.
    pub fn duplicate(&self) -> (r: DataField)
        ensures
            field_eq(r, *self),
            r.name@ == self.name@,
            type_eq(r.data_type, self.data_type),
            r.data_type.nullable == self.data_type.nullable,
            r.data_type.base.spec_id() == self.data_type.base.spec_id(),
    {
        DataField { name: self.name.clone(), data_type: self.data_type.duplicate() }
    }

    /// Equality test matching `field_eq`.
    pub fn equals(&self, other: &DataField) -> (r: bool)
        ensures
            r == field_eq(*self, *other),
    {
        self.name == other.name && self.data_type.equals(&other.data_type)
    }
}

/// The physical shape that cells of a type occupy, if the type is
/// representable in a column.
pub open spec fn shape_of_id(t: TypeID) -> Option<Shape> {
    if t == TypeID::Boolean {
        Option::Some(Shape::SBool)
    } else if t == TypeID::String {
        Option::Some(Shape::SStr)
    } else if t.spec_is_integer_backed() {
        Option::Some(Shape::SInt(t))
    } else {
        Option::None
    }
}

/// Whether a column is a faithful carrier for a declared type: matching
/// physical shape, and only nullable when the type allows nulls.
pub open spec fn column_matches_type(c: Column, dt: DataType) -> bool {
    shape_of_id(dt.base.spec_id()) == Option::Some(c.spec_shape()) && (c.spec_is_nullable()
        ==> dt.nullable)
}

/// A column together with its originating field, for functions that need
/// a column's declared type and not just its physical encoding.
#[derive(Debug)]
pub struct ColumnWithField {
    pub column: Column,
    pub field: DataField,
}

impl ColumnWithField {
    pub fn new(column: Column, field: DataField) -> (r: ColumnWithField)
        ensures
            r.column == column,
            r.field == field,
    {
        ColumnWithField { column, field }
    }

    pub fn column(&self) -> (r: &Column)
        ensures
            r == &self.column,
    {
        &self.column
    }

    pub fn field(&self) -> (r: &DataField)
        ensures
            r == &self.field,
    {
        &self.field
    }

    pub fn data_type(&self) -> (r: &DataType)
        ensures
            r == &self.field.data_type,
    {
        &self.field.data_type
    }
}

/// A row-aligned collection of equal-length columns sharing one schema.
#[derive(Debug)]
pub struct DataBlock {
    pub schema: Vec<DataField>,
    pub columns: Vec<Column>,
}

impl DataBlock {
    /// The common row count of the block's columns.
    pub open spec fn spec_rows(&self) -> nat {
        if self.columns@.len() == 0 {
            0
        } else {
            self.columns@[0].values().len()
        }
    }

    /// Block invariant: one column per schema field, every column
    /// well-formed, matching its field's type, and all of one length.
    pub open spec fn wf(&self) -> bool {
        &&& self.columns@.len() == self.schema@.len()
        &&& forall|i: int| 0 <= i < self.columns@.len() ==> (#[trigger] self.columns@[i]).wf()
        &&& forall|i: int|
            0 <= i < self.columns@.len() ==> column_matches_type(
                #[trigger] self.columns@[i],
                self.schema@[i].data_type,
            )
        &&& forall|i: int|
            0 <= i < self.columns@.len() ==> (#[trigger] self.columns@[i]).values().len()
                == self.spec_rows()
    }

    /// Builds a block from aligned parts; the caller (the planner layer)
    /// guarantees the alignment, as a violation is a programming error.
    pub fn create(schema: Vec<DataField>, columns: Vec<Column>) -> (r: DataBlock)
        requires
            (DataBlock { schema, columns }).wf(),
        ensures
            r.schema == schema,
            r.columns == columns,
            r.wf(),
    {
        DataBlock { schema, columns }
    }

    pub fn num_columns(&self) -> (r: usize)
        ensures
            r == self.columns@.len(),
    {
        self.columns.len()
    }

    pub fn num_rows(&self) -> (r: usize)
        ensures
            r == self.spec_rows(),
    {
        if self.columns.len() == 0 {
            0
        } else {
            self.columns[0].len()
        }
    }

    pub fn column(&self, i: usize) -> (r: &Column)
        requires
            i < self.columns@.len(),
        ensures
            r == &self.columns@[i as int],
    {
        &self.columns[i]
    }

    pub fn schema(&self) -> (r: &Vec<DataField>)
        ensures
            r == &self.schema,
    {
        &self.schema
    }

    /// Column-wise concatenation of blocks sharing one schema.
    ///
    /// Fails with `EmptyData` on an empty input and with
    /// `DataStructMismatch` when any block's schema differs from the
    /// first's; otherwise column `i` of the result is the ordered
    /// concatenation of column `i` across the inputs, and the row count is
    /// the sum of the inputs' row counts.
    pub fn concat_blocks(blocks: &Vec<DataBlock>) -> (r: Result<DataBlock, ErrorCode>)
        requires
            forall|i: int| 0 <= i < blocks@.len() ==> (#[trigger] blocks@[i]).wf(),
        ensures
            match r {
                Ok(b) => {
                    &&& blocks@.len() > 0
                    &&& forall|i: int|
                        0 <= i < blocks@.len() ==> schema_eq(
                            (#[trigger] blocks@[i]).schema@,
                            blocks@[0].schema@,
                        )
                    &&& b.wf()
                    &&& schema_eq(b.schema@, blocks@[0].schema@)
                    &&& b.columns@.len() == blocks@[0].columns@.len()
                    &&& forall|c: int|
                        0 <= c < b.columns@.len() ==> (#[trigger] b.columns@[c]).values()
                            == blocks_col_concat(blocks@, c)
                    &&& b.spec_rows() == total_rows(blocks@)
                },
                Err(e) => (blocks@.len() == 0 && e.kind == ErrorKind::EmptyData) || (blocks@.len()
                    > 0 && e.kind == ErrorKind::DataStructMismatch && exists|i: int|
                    0 <= i < blocks@.len() && !schema_eq(
                        (#[trigger] blocks@[i]).schema@,
                        blocks@[0].schema@,
                    )),
            },
    {
        let n = blocks.len();
        if n == 0 {
            return Err(
                ErrorCode::new(ErrorKind::EmptyData, String::from_str("Can't concat empty blocks")),
            );
        }
        let first = &blocks[0];
        let mut i: usize = 1;
        while i < n
            invariant
                n == blocks@.len(),
                n > 0,
                1 <= i <= n,
                first == &blocks@[0],
                forall|t: int| 0 <= t < n ==> (#[trigger] blocks@[t]).wf(),
                forall|t: int|
                    0 <= t < i ==> schema_eq((#[trigger] blocks@[t]).schema@, blocks@[0].schema@),
            decreases n - i,
        {
            if !schemas_equal(blocks[i].schema(), first.schema()) {
                return Err(
                    ErrorCode::new(
                        ErrorKind::DataStructMismatch,
                        String::from_str("Schema not matched"),
                    ),
                );
            }
            i += 1;
        }
        let num_cols = first.num_columns();
        let mut out_columns: Vec<Column> = Vec::new();
        let mut c: usize = 0;
        while c < num_cols
            invariant
                n == blocks@.len(),
                n > 0,
                first == &blocks@[0],
                num_cols == blocks@[0].columns@.len(),
                forall|t: int| 0 <= t < n ==> (#[trigger] blocks@[t]).wf(),
                forall|t: int|
                    0 <= t < n ==> schema_eq((#[trigger] blocks@[t]).schema@, blocks@[0].schema@),
                c <= num_cols,
                out_columns@.len() == c,
                forall|t: int|
                    0 <= t < c ==> (#[trigger] out_columns@[t]).values() == blocks_col_concat(
                        blocks@,
                        t,
                    ),
                forall|t: int| 0 <= t < c ==> (#[trigger] out_columns@[t]).wf(),
                forall|t: int|
                    0 <= t < c ==> (#[trigger] out_columns@[t]).spec_shape()
                        == blocks@[0].columns@[t].spec_shape(),
                forall|t: int|
                    0 <= t < c ==> ((#[trigger] out_columns@[t]).spec_is_nullable()
                        ==> blocks@[0].schema@[t].data_type.nullable),
                forall|t: int|
                    0 <= t < c ==> (#[trigger] out_columns@[t]).values().len() == total_rows(
                        blocks@,
                    ),
            decreases num_cols - c,
        {
            let mut refs: Vec<&Column> = Vec::new();
            let mut k: usize = 0;
            while k < n
                invariant
                    n == blocks@.len(),
                    c < num_cols,
                    num_cols == blocks@[0].columns@.len(),
                    forall|t: int| 0 <= t < n ==> (#[trigger] blocks@[t]).wf(),
                    forall|t: int|
                        0 <= t < n ==> schema_eq(
                            (#[trigger] blocks@[t]).schema@,
                            blocks@[0].schema@,
                        ),
                    k <= n,
                    refs@.len() == k,
                    forall|t: int| 0 <= t < k ==> refs@[t] == &(#[trigger] blocks@[t]).columns@[c as int],
                decreases n - k,
            {
                proof {
                    assert(schema_eq(blocks@[k as int].schema@, blocks@[0].schema@));
                    assert(blocks@[k as int].columns@.len() == blocks@[k as int].schema@.len());
                }
                refs.push(blocks[k].column(c));
                k += 1;
            }
            proof {
                lemma_refs_match_blocks(refs@, blocks@, c as int);
                assert forall|t: int| 0 <= t < refs@.len() implies (#[trigger] refs@[t]).wf() by {
                    assert(blocks@[t].wf());
                }
                assert(refs@[0].spec_shape() == blocks@[0].columns@[c as int].spec_shape());
            }
            let col = match concat_columns(&refs) {
                Ok(col) => col,
                Err(_) => {
                    proof {
                        let k0 = choose|k0: int|
                            0 <= k0 < refs@.len() && (#[trigger] refs@[k0]).spec_shape()
                                != refs@[0].spec_shape();
                        assert(column_matches_type(
                            blocks@[k0].columns@[c as int],
                            blocks@[k0].schema@[c as int].data_type,
                        ));
                        assert(field_eq(blocks@[k0].schema@[c as int], blocks@[0].schema@[c as int]));
                        crate::data_type::lemma_base_type_eq_id(
                            blocks@[k0].schema@[c as int].data_type.base,
                            blocks@[0].schema@[c as int].data_type.base,
                        );
                        assert(column_matches_type(
                            blocks@[0].columns@[c as int],
                            blocks@[0].schema@[c as int].data_type,
                        ));
                        assert(false);
                    }
                    return Err(
                        ErrorCode::new(
                            ErrorKind::DataStructMismatch,
                            String::from_str("Schema not matched"),
                        ),
                    );
                },
            };
            proof {
                lemma_concat_refs_values(refs@, blocks@, c as int);
                lemma_total_rows_col(blocks@, c as int);
                if col.spec_is_nullable() {
                    let k0 = choose|k0: int|
                        0 <= k0 < refs@.len() && (#[trigger] refs@[k0]).spec_is_nullable();
                    assert(column_matches_type(
                        blocks@[k0].columns@[c as int],
                        blocks@[k0].schema@[c as int].data_type,
                    ));
                    assert(field_eq(blocks@[k0].schema@[c as int], blocks@[0].schema@[c as int]));
                }
            }
            out_columns.push(col);
            c += 1;
        }
        let mut out_schema: Vec<DataField> = Vec::new();
        let mut f: usize = 0;
        let nf = first.schema.len();
        while f < nf
            invariant
                nf == blocks@[0].schema@.len(),
                first == &blocks@[0],
                n == blocks@.len(),
                n > 0,
                forall|t: int| 0 <= t < n ==> (#[trigger] blocks@[t]).wf(),
                f <= nf,
                out_schema@.len() == f,
                forall|t: int|
                    0 <= t < f ==> field_eq(#[trigger] out_schema@[t], blocks@[0].schema@[t]),
                forall|t: int|
                    0 <= t < f ==> (#[trigger] out_schema@[t]).data_type.nullable
                        == blocks@[0].schema@[t].data_type.nullable,
                forall|t: int|
                    0 <= t < f ==> (#[trigger] out_schema@[t]).data_type.base.spec_id()
                        == blocks@[0].schema@[t].data_type.base.spec_id(),
            decreases nf - f,
        {
            out_schema.push(first.schema[f].duplicate());
            f += 1;
        }
        let out = DataBlock { schema: out_schema, columns: out_columns };
        proof {
            assert(blocks@[0].wf());
            if num_cols == 0 {
                assert forall|t: int| 0 <= t < blocks@.len() implies (#[trigger] blocks@[t]).spec_rows() == 0 by {
                    assert(blocks@[t].wf());
                    assert(schema_eq(blocks@[t].schema@, blocks@[0].schema@));
                }
                lemma_total_rows_zero(blocks@);
            }
            assert forall|t: int| 0 <= t < out.columns@.len() implies column_matches_type(
                #[trigger] out.columns@[t],
                out.schema@[t].data_type,
            ) by {
                assert(column_matches_type(
                    blocks@[0].columns@[t],
                    blocks@[0].schema@[t].data_type,
                ));
            }
            assert(out.wf());
        }
        Ok(out)
    }
}

/// Whether two schemas agree field by field.
pub fn schemas_equal(a: &Vec<DataField>, b: &Vec<DataField>) -> (r: bool)
    ensures
        r == schema_eq(a@, b@),
{
    if a.len() != b.len() {
        return false;
    }
    let n = a.len();
    let mut i: usize = 0;
    while i < n
        invariant
            n == a@.len(),
            a@.len() == b@.len(),
            i <= n,
            forall|t: int| 0 <= t < i ==> field_eq(#[trigger] a@[t], b@[t]),
        decreases n - i,
    {
        if !a[i].equals(&b[i]) {
            return false;
        }
        i += 1;
    }
    true
}

/// The contents of column `c` concatenated across a list of blocks.
pub open spec fn blocks_col_concat(blocks: Seq<DataBlock>, c: int) -> Seq<Val>
    decreases blocks.len(),
{
    if blocks.len() == 0 {
        Seq::empty()
    } else {
        blocks_col_concat(blocks.drop_last(), c) + blocks.last().columns@[c].values()
    }
}

/// The total number of rows across a list of blocks.
pub open spec fn total_rows(blocks: Seq<DataBlock>) -> int
    decreases blocks.len(),
{
    if blocks.len() == 0 {
        0
    } else {
        total_rows(blocks.drop_last()) + blocks.last().spec_rows()
    }
}

/// Column references gathered per block line up with the blocks' columns,
/// so their concatenated contents coincide.
proof fn lemma_concat_refs_values(refs: Seq<&Column>, blocks: Seq<DataBlock>, c: int)
    requires
        refs.len() == blocks.len(),
        forall|t: int| 0 <= t < refs.len() ==> refs[t] == &(#[trigger] blocks[t]).columns@[c],
    ensures
        concat_values(refs) == blocks_col_concat(blocks, c),
    decreases refs.len(),
{
    if refs.len() > 0 {
        lemma_concat_refs_values(refs.drop_last(), blocks.drop_last(), c);
        assert(refs.last() == &blocks.last().columns@[c]);
    }
}

/// Helper: the gathered references are exactly the blocks' columns at `c`.
proof fn lemma_refs_match_blocks(refs: Seq<&Column>, blocks: Seq<DataBlock>, c: int)
    requires
        refs.len() == blocks.len(),
        forall|t: int| 0 <= t < refs.len() ==> refs[t] == &(#[trigger] blocks[t]).columns@[c],
    ensures
        forall|t: int| 0 <= t < refs.len() ==> *(#[trigger] refs[t]) == blocks[t].columns@[c],
{
}

/// The concatenated length of column `c` across blocks equals the total
/// row count, provided each block is well-formed and has a column `c`.
proof fn lemma_total_rows_col(blocks: Seq<DataBlock>, c: int)
    requires
        0 <= c,
        forall|t: int| 0 <= t < blocks.len() ==> (#[trigger] blocks[t]).wf(),
        forall|t: int| 0 <= t < blocks.len() ==> c < (#[trigger] blocks[t]).columns@.len(),
    ensures
        blocks_col_concat(blocks, c).len() == total_rows(blocks),
    decreases blocks.len(),
{
    if blocks.len() > 0 {
        assert forall|t: int|
            0 <= t < blocks.drop_last().len() implies (#[trigger] blocks.drop_last()[t]).wf() by {
            assert(blocks.drop_last()[t] == blocks[t]);
            assert(blocks[t].wf());
        }
        assert forall|t: int|
            0 <= t < blocks.drop_last().len() implies c < (#[trigger] blocks.drop_last()[t]).columns@.len() by {
            assert(blocks.drop_last()[t] == blocks[t]);
            assert(c < blocks[t].columns@.len());
        }
        lemma_total_rows_col(blocks.drop_last(), c);
        assert(blocks.last().wf());
        assert(blocks.last().columns@[c].values().len() == blocks.last().spec_rows());
    }
}

/// A list of zero-row blocks totals zero rows.
proof fn lemma_total_rows_zero(blocks: Seq<DataBlock>)
    requires
        forall|t: int| 0 <= t < blocks.len() ==> (#[trigger] blocks[t]).spec_rows() == 0,
    ensures
        total_rows(blocks) == 0,
    decreases blocks.len(),
{
    if blocks.len() > 0 {
        assert forall|t: int| 0 <= t < blocks.drop_last().len() implies (#[trigger] blocks.drop_last()[t]).spec_rows() == 0 by {
            assert(blocks.drop_last()[t] == blocks[t]);
            assert(blocks[t].spec_rows() == 0);
        }
        lemma_total_rows_zero(blocks.drop_last());
        assert(blocks.last().spec_rows() == 0);
    }
}

} // verus!
