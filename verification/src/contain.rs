//! Membership of each cell of a column in a list of values: one boolean
//! per row, null rows passing through.

use vstd::prelude::*;
use vstd::string::StringExecFns;

use crate::column::lemma_wf_base_or_const_no_nulls;
use crate::column::Column;
use crate::column::Shape;
use crate::column::Val;
use crate::error::ErrorCode;
use crate::error::ErrorKind;

verus! {

/// Whether a value occurs in a list of cells.
pub open spec fn contains_val(list: Seq<Val>, v: Val) -> bool {
    exists|k: int| 0 <= k < list.len() && list[k] == v
}

/// The per-row result: membership of the row's value, null for a null
/// row.
pub open spec fn contain_row(list: Seq<Val>, v: Val) -> Val {
    if v is Null {
        Val::Null
    } else {
        Val::Bool(contains_val(list, v))
    }
}

/// Scans an integer list column for a value.
fn list_contains_int(list: &Column, v: i128) -> (r: bool)
    requires
        list.wf(),
        list.spec_shape() is SInt,
    ensures
        r == contains_val(list.values(), Val::Int(v as int)),
{
    let n = list.len();
    let mut k: usize = 0;
    while k < n
        invariant
            list.wf(),
            list.spec_shape() is SInt,
            n == list.values().len(),
            k <= n,
            forall|t: int| 0 <= t < k ==> #[trigger] list.values()[t] != Val::Int(v as int),
        decreases n - k,
    {
        let (w, wok) = list.int_at(k);
        if wok && w == v {
            proof {
                assert(list.values()[k as int] == Val::Int(v as int));
            }
            return true;
        }
        k += 1;
    }
    false
}

/// Scans a boolean list column for a value.
fn list_contains_bool(list: &Column, v: bool) -> (r: bool)
    requires
        list.wf(),
        list.spec_shape() is SBool,
    ensures
        r == contains_val(list.values(), Val::Bool(v)),
{
    let n = list.len();
    let mut k: usize = 0;
    while k < n
        invariant
            list.wf(),
            list.spec_shape() is SBool,
            n == list.values().len(),
            k <= n,
            forall|t: int| 0 <= t < k ==> #[trigger] list.values()[t] != Val::Bool(v),
        decreases n - k,
    {
        let (w, wok) = list.bool_at(k);
        if wok && w == v {
            proof {
                assert(list.values()[k as int] == Val::Bool(v));
            }
            return true;
        }
        k += 1;
    }
    false
}

/// Scans a string list column for a value.
fn list_contains_str(list: &Column, v: &String) -> (r: bool)
    requires
        list.wf(),
        list.spec_shape() is SStr,
    ensures
        r == contains_val(list.values(), Val::Str(v@)),
{
    let n = list.len();
    let mut k: usize = 0;
    while k < n
        invariant
            list.wf(),
            list.spec_shape() is SStr,
            n == list.values().len(),
            k <= n,
            forall|t: int| 0 <= t < k ==> #[trigger] list.values()[t] != Val::Str(v@),
        decreases n - k,
    {
        let (w, wok) = list.str_at(k);
        if wok && w == *v {
            proof {
                assert(list.values()[k as int] == Val::Str(v@));
            }
            return true;
        }
        k += 1;
    }
    false
}

/// Tests each cell of `col` for membership in `list`: output row `j` is a
/// boolean (null rows stay null). Fails when the two columns' physical
/// shapes disagree.
pub fn contain(col: &Column, list: &Column) -> (r: Result<Column, ErrorCode>)
    requires
        col.wf(),
        list.wf(),
    ensures
        match r {
            Ok(c) => {
                &&& col.spec_shape() == list.spec_shape()
                &&& c.wf()
                &&& c.spec_shape() == Shape::SBool
                &&& c.values().len() == col.values().len()
                &&& c.spec_is_nullable() == col.spec_is_nullable()
                &&& forall|j: int|
                    0 <= j < c.values().len() ==> #[trigger] c.values()[j] == contain_row(
                        list.values(),
                        col.values()[j],
                    )
            },
            Err(e) => col.spec_shape() != list.spec_shape() && e.kind
                == ErrorKind::DataStructMismatch,
        },
{
    let shape = col.shape();
    if shape != list.shape() {
        return Err(
            ErrorCode::new(
                ErrorKind::DataStructMismatch,
                String::from_str("Membership requires the column and the list to share one shape"),
            ),
        );
    }
    let nullable = col.is_nullable();
    proof {
        if !nullable {
            lemma_wf_base_or_const_no_nulls(*col);
        }
    }
    let n = col.len();
    let mut data: Vec<bool> = Vec::new();
    let mut validity: Vec<bool> = Vec::new();
    let mut j: usize = 0;
    while j < n
        invariant
            col.wf(),
            list.wf(),
            col.spec_shape() == list.spec_shape(),
            shape == col.spec_shape(),
            n == col.values().len(),
            nullable == col.spec_is_nullable(),
            !nullable ==> col.no_nulls(),
            j <= n,
            data@.len() == j,
            validity@.len() == j,
            forall|t: int|
                0 <= t < j ==> ((#[trigger] validity@[t]) ==> contain_row(
                    list.values(),
                    col.values()[t],
                ) == Val::Bool(data@[t])),
            forall|t: int|
                0 <= t < j ==> (!(#[trigger] validity@[t]) ==> contain_row(
                    list.values(),
                    col.values()[t],
                ) is Null),
            !nullable ==> (forall|t: int| 0 <= t < j ==> #[trigger] validity@[t]),
        decreases n - j,
    {
        let (found, ok) = match &shape {
            Shape::SInt(_) => {
                let (v, ok) = col.int_at(j);
                if ok {
                    (list_contains_int(list, v), true)
                } else {
                    (false, false)
                }
            },
            Shape::SBool => {
                let (v, ok) = col.bool_at(j);
                if ok {
                    (list_contains_bool(list, v), true)
                } else {
                    (false, false)
                }
            },
            Shape::SStr => {
                let (v, ok) = col.str_at(j);
                if ok {
                    (list_contains_str(list, &v), true)
                } else {
                    (false, false)
                }
            },
        };
        data.push(found);
        validity.push(ok);
        j += 1;
    }
    let ghost gdata = data@;
    let inner = Column::Bools { data };
    proof {
        assert(inner.values() =~= gdata.map_values(|b: bool| Val::Bool(b)));
        assert(inner.wf());
        assert(inner.spec_shape() == Shape::SBool);
    }
    if nullable {
        let c = Column::Nullable { inner: Box::new(inner), validity };
        proof {
            assert(c.wf());
            assert(c.spec_shape() == inner.spec_shape());
            assert forall|t: int| 0 <= t < n implies #[trigger] c.values()[t] == contain_row(
                list.values(),
                col.values()[t],
            ) by {
                assert(c.values()[t] == if validity@[t] {
                    inner.values()[t]
                } else {
                    Val::Null
                });
            }
        }
        Ok(c)
    } else {
        proof {
            assert forall|t: int| 0 <= t < n implies #[trigger] inner.values()[t] == contain_row(
                list.values(),
                col.values()[t],
            ) by {
                assert(validity@[t]);
            }
        }
        Ok(inner)
    }
}

} // verus!
