//! The bidirectional adapter between two generations of the columnar
//! representation: the legacy array/constant pair and the current column
//! hierarchy. Nullability is preserved — a nullable field whose physical
//! value carries no validity bitmap gets an all-valid bitmap synthesized —
//! and constant-ness is preserved by explicit wrapping rather than by
//! materializing the constant across every row.

use vstd::prelude::*;
use vstd::string::StringExecFns;

use crate::block::ColumnWithField;
use crate::block::DataField;
use crate::column::lemma_wf_base_or_const_no_nulls;
use crate::column::Column;
use crate::column::Val;
use crate::error::ErrorCode;
use crate::error::ErrorKind;
use crate::type_id::TypeID;
use crate::value::DataValue;

verus! {

/// A legacy column: a physical array with an optional validity bitmap, or
/// a constant scalar logically repeated.
#[derive(Debug)]
pub enum OldDataColumn {
    Array { values: Column, validity: Option<Vec<bool>> },
    Constant { value: DataValue, size: usize },
}

/// A legacy column together with its declared field.
#[derive(Debug)]
pub struct OldDataColumnWithField {
    pub column: OldDataColumn,
    pub field: DataField,
}

/// The logical value a legacy scalar stands for.
pub open spec fn scalar_val(v: DataValue) -> Val {
    match v {
        DataValue::Null => Val::Null,
        DataValue::Boolean(b) => Val::Bool(b),
        DataValue::Int64(x) => Val::Int(x as int),
        DataValue::UInt64(x) => Val::Int(x as int),
        DataValue::String(s) => Val::Str(s@),
    }
}

impl OldDataColumn {
    /// Well-formedness: the array part is a bare physical array, and a
    /// bitmap (when present) is row-aligned with it.
    pub open spec fn wf(&self) -> bool {
        match self {
            OldDataColumn::Array { values, validity } => values.wf() && values.is_base() && (
            match validity {
                Option::Some(b) => b@.len() == values.values().len(),
                Option::None => true,
            }),
            OldDataColumn::Constant { value, size } => true,
        }
    }

    /// The physical cells, bitmap disregarded.
    pub open spec fn raw_values(&self) -> Seq<Val> {
        match self {
            OldDataColumn::Array { values, validity } => values.values(),
            OldDataColumn::Constant { value, size } => Seq::new(
                *size as nat,
                |j: int| scalar_val(*value),
            ),
        }
    }

    /// The logical contents the legacy column represents.
    pub open spec fn old_values(&self) -> Seq<Val> {
        match self {
            OldDataColumn::Array { values, validity } => match validity {
                Option::Some(b) => Seq::new(
                    b@.len(),
                    |j: int|
                        if b@[j] {
                            values.values()[j]
                        } else {
                            Val::Null
                        },
                ),
                Option::None => values.values(),
            },
            OldDataColumn::Constant { value, size } => Seq::new(
                *size as nat,
                |j: int| scalar_val(*value),
            ),
        }
    }
}

/// A single-cell physical column holding a legacy scalar. Fails on a bare
/// null, which has no physical array type of its own.
fn scalar_to_cell(value: &DataValue) -> (r: Result<Column, ErrorCode>)
    ensures
        match r {
            Ok(c) => {
                &&& c.wf()
                &&& c.is_base()
                &&& c.values().len() == 1
                &&& c.values()[0] == scalar_val(*value)
            },
            Err(e) => *value is Null && e.kind == ErrorKind::IllegalDataType,
        },
{
    match value {
        DataValue::Boolean(b) => Ok(Column::Bools { data: vec![*b] }),
        DataValue::Int64(x) => {
            let cells: Vec<i128> = vec![*x as i128];
            Ok(Column::Ints { ty: TypeID::Int64, data: cells })
        },
        DataValue::UInt64(x) => {
            let cells: Vec<i128> = vec![*x as i128];
            Ok(Column::Ints { ty: TypeID::UInt64, data: cells })
        },
        DataValue::String(s) => Ok(Column::Strs { data: vec![s.clone()] }),
        DataValue::Null => Err(
            ErrorCode::new(
                ErrorKind::IllegalDataType,
                String::from_str("A bare null scalar has no physical column type"),
            ),
        ),
    }
}

/// Converts a legacy column to the current hierarchy. Constant-ness
/// becomes an explicit constant wrapper; a nullable field keeps its
/// bitmap, or has an all-valid bitmap synthesized when the physical value
/// carries none.
pub fn convert2_new_column(column: OldDataColumnWithField) -> (r: Result<
    ColumnWithField,
    ErrorCode,
>)
    requires
        column.column.wf(),
    ensures
        match r {
            Ok(out) => {
                &&& out.field == column.field
                &&& out.column.wf()
                &&& out.column.spec_is_nullable() == column.field.data_type.nullable
                &&& (column.field.data_type.nullable ==> out.column.values()
                    =~= column.column.old_values())
                &&& (!column.field.data_type.nullable ==> out.column.values()
                    =~= column.column.raw_values())
                &&& (column.column is Constant && !column.field.data_type.nullable
                    ==> out.column.spec_is_const())
            },
            Err(e) => (column.column matches OldDataColumn::Constant { value, size } && value
                is Null) && e.kind == ErrorKind::IllegalDataType,
        },
{
    let OldDataColumnWithField { column: old, field } = column;
    let nullable = field.data_type.is_nullable();
    match old {
        OldDataColumn::Array { values, validity } => {
            if nullable {
                let n = values.len();
                let bitmap = match validity {
                    Option::Some(b) => b,
                    Option::None => {
                        // synthesize an all-valid bitmap rather than
                        // treating the absence as an error
                        let mut b: Vec<bool> = Vec::new();
                        let mut i: usize = 0;
                        while i < n
                            invariant
                                i <= n,
                                b@.len() == i,
                                forall|t: int| 0 <= t < i ==> #[trigger] b@[t],
                            decreases n - i,
                        {
                            b.push(true);
                            i += 1;
                        }
                        b
                    },
                };
                let ghost gbitmap = bitmap@;
                let ghost gvalues = values.values();
                proof {
                    lemma_wf_base_or_const_no_nulls(values);
                }
                let col = Column::Nullable { inner: Box::new(values), validity: bitmap };
                proof {
                    assert(col.wf());
                    assert(col.values() =~= Seq::new(
                        gbitmap.len(),
                        |j: int|
                            if gbitmap[j] {
                                gvalues[j]
                            } else {
                                Val::Null
                            },
                    ));
                }
                Ok(ColumnWithField { column: col, field })
            } else {
                // a non-nullable field reads the physical cells; a stray
                // bitmap has nothing to attach to and is disregarded
                Ok(ColumnWithField { column: values, field })
            }
        },
        OldDataColumn::Constant { value, size } => {
            let cell = match scalar_to_cell(&value) {
                Ok(c) => c,
                Err(e) => {
                    return Err(e);
                },
            };
            let constant = Column::Const { inner: Box::new(cell), len: size };
            proof {
                assert(constant.wf());
                assert(constant.values() =~= Seq::new(size as nat, |j: int| scalar_val(value)));
            }
            if nullable {
                let n = size;
                let mut bitmap: Vec<bool> = Vec::new();
                let mut i: usize = 0;
                while i < n
                    invariant
                        i <= n,
                        bitmap@.len() == i,
                        forall|t: int| 0 <= t < i ==> #[trigger] bitmap@[t],
                    decreases n - i,
                {
                    bitmap.push(true);
                    i += 1;
                }
                let ghost gvals = constant.values();
                proof {
                    lemma_wf_base_or_const_no_nulls(constant);
                }
                let ghost gbitmap = bitmap@;
                let col = Column::Nullable { inner: Box::new(constant), validity: bitmap };
                proof {
                    assert(col.wf());
                    assert(col.values() =~= gvals);
                }
                Ok(ColumnWithField { column: col, field })
            } else {
                Ok(ColumnWithField { column: constant, field })
            }
        },
    }
}

/// The scalar a base column's first cell stands for.
fn cell_value(c: &Column) -> (v: DataValue)
    requires
        c.wf(),
        c.is_base(),
        c.values().len() >= 1,
    ensures
        scalar_val(v) == c.values()[0],
{
    match c {
        Column::Ints { ty, data } => {
            if crate::coercion::physically_unsigned(*ty) {
                DataValue::UInt64(data[0] as u64)
            } else {
                DataValue::Int64(data[0] as i64)
            }
        },
        Column::Bools { data } => DataValue::Boolean(data[0]),
        Column::Strs { data } => DataValue::String(data[0].clone()),
        _ => {
            proof {
                assert(false);
            }
            DataValue::Null
        },
    }
}

/// Expands a constant wrapper into a full physical array; a bare array
/// passes through.
fn materialize(c: Column) -> (r: Column)
    requires
        c.wf(),
        c.is_base() || c is Const,
    ensures
        r.wf(),
        r.is_base(),
        r.values() =~= c.values(),
{
    let is_const = c.is_const();
    if !is_const {
        return c;
    }
    let ghost gc = c;
    let (inner, len) = match c {
        Column::Const { inner, len } => (*inner, len),
        _ => {
            proof {
                assert(false);
            }
            return c;
        },
    };
    let ghost ginner = inner;
    proof {
        assert(ginner.wf());
        assert(ginner.values().len() == 1);
    }
    match inner {
        Column::Ints { ty, data } => {
            let cell = data[0];
            let mut out: Vec<i128> = Vec::new();
            let mut i: usize = 0;
            while i < len
                invariant
                    ty.in_range(cell as int),
                    ty.spec_is_integer_backed(),
                    i <= len,
                    out@.len() == i,
                    forall|t: int| 0 <= t < i ==> #[trigger] out@[t] == cell,
                decreases len - i,
            {
                out.push(cell);
                i += 1;
            }
            let r = Column::Ints { ty, data: out };
            proof {
                assert(r.values() =~= gc.values());
            }
            r
        },
        Column::Bools { data } => {
            let cell = data[0];
            let mut out: Vec<bool> = Vec::new();
            let mut i: usize = 0;
            while i < len
                invariant
                    i <= len,
                    out@.len() == i,
                    forall|t: int| 0 <= t < i ==> #[trigger] out@[t] == cell,
                decreases len - i,
            {
                out.push(cell);
                i += 1;
            }
            let r = Column::Bools { data: out };
            proof {
                assert(r.values() =~= gc.values());
            }
            r
        },
        Column::Strs { data } => {
            let cell = &data[0];
            let mut out: Vec<String> = Vec::new();
            let mut i: usize = 0;
            while i < len
                invariant
                    i <= len,
                    out@.len() == i,
                    forall|t: int| 0 <= t < i ==> (#[trigger] out@[t])@ == cell@,
                decreases len - i,
            {
                out.push(cell.clone());
                i += 1;
            }
            let r = Column::Strs { data: out };
            proof {
                assert(r.values() =~= gc.values());
            }
            r
        },
        _ => {
            proof {
                assert(false);
            }
            Column::Bools { data: Vec::new() }
        },
    }
}

/// Converts a current column back to the legacy representation: a
/// constant wrapper becomes a legacy constant scalar, a nullable wrapper
/// becomes an array with its bitmap, a bare array passes through.
pub fn convert2_old_column(column: Column) -> (r: OldDataColumn)
    requires
        column.wf(),
    ensures
        r.wf(),
        r.old_values() =~= column.values(),
        column is Const ==> r is Constant,
{
    let ghost gcol = column;
    match column {
        Column::Const { inner, len } => {
            proof {
                lemma_wf_base_or_const_no_nulls(gcol);
            }
            let value = cell_value(&*inner);
            let r = OldDataColumn::Constant { value, size: len };
            proof {
                assert(r.old_values() =~= gcol.values());
            }
            r
        },
        Column::Nullable { inner, validity } => {
            let base = materialize(*inner);
            let ghost gbase = base;
            let r = OldDataColumn::Array { values: base, validity: Option::Some(validity) };
            proof {
                assert(r.old_values() =~= gcol.values());
            }
            r
        },
        other => {
            let r = OldDataColumn::Array { values: other, validity: Option::None };
            r
        },
    }
}

/// As `convert2_old_column`, carrying the field along.
pub fn convert2_old_column_with_field(column: ColumnWithField) -> (r: OldDataColumnWithField)
    requires
        column.column.wf(),
    ensures
        r.field == column.field,
        r.column.wf(),
        r.column.old_values() =~= column.column.values(),
{
    let ColumnWithField { column: col, field } = column;
    OldDataColumnWithField { column: convert2_old_column(col), field }
}


} // verus!
