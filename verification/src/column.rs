//! The columnar value container: a fixed-width integer array, a boolean
//! array, a string array, a constant (run-length-1) wrapper and a nullable
//! wrapper layered over any of them.
//!
//! Every column has a logical view `values()`: the sequence of cell values
//! it represents, with `Val::Null` standing for an invalid row.

use vstd::prelude::*;
use vstd::string::StringExecFns;

use crate::error::ErrorCode;
use crate::error::ErrorKind;
use crate::type_id::TypeID;

verus! {

/// The logical value of one cell, as contracts speak of it.
pub ghost enum Val {
    Null,
    Bool(bool),
    Int(int),
    Str(Seq<char>),
}

/// The physical element kind of a column, wrappers stripped.
#[derive(Clone, Copy, PartialEq, Eq, Structural, Debug)]
pub enum Shape {
    SInt(TypeID),
    SBool,
    SStr,
}

#[derive(Debug)]
pub enum Column {
    /// One integer-backed cell per row; `ty` fixes the width and range.
    Ints { ty: TypeID, data: Vec<i128> },
    Bools { data: Vec<bool> },
    Strs { data: Vec<String> },
    /// One stored value logically repeated `len` times.
    Const { inner: Box<Column>, len: usize },
    /// An inner column plus a validity bitmap; bit i = "row i is non-null".
    Nullable { inner: Box<Column>, validity: Vec<bool> },
}

impl Column {
    /// A column with no wrapper around its cells.
    pub open spec fn is_base(self) -> bool {
        self is Ints || self is Bools || self is Strs
    }

    /// Well-formedness: integer cells are in range of their type, a constant
    /// wraps exactly one base cell, a nullable wrapper is as long as its
    /// bitmap and never wraps another nullable.
    pub open spec fn wf(self) -> bool
        decreases self,
    {
        match self {
            Column::Ints { ty, data } => ty.spec_is_integer_backed() && (forall|j: int|
                0 <= j < data@.len() ==> ty.in_range(#[trigger] data@[j] as int)),
            Column::Bools { data } => true,
            Column::Strs { data } => true,
            Column::Const { inner, len } => (*inner).wf() && (*inner).is_base() && (
            *inner).values().len() == 1,
            Column::Nullable { inner, validity } => (*inner).wf() && !((*inner) is Nullable)
                && validity@.len() == (*inner).values().len(),
        }
    }

    /// The logical contents: one `Val` per row.
    pub open spec fn values(self) -> Seq<Val>
        decreases self,
    {
        match self {
            Column::Ints { ty, data } => data@.map_values(|v: i128| Val::Int(v as int)),
            Column::Bools { data } => data@.map_values(|b: bool| Val::Bool(b)),
            Column::Strs { data } => data@.map_values(|s: String| Val::Str(s@)),
            Column::Const { inner, len } => Seq::new(len as nat, |j: int| (*inner).values()[0]),
            Column::Nullable { inner, validity } => Seq::new(
                validity@.len(),
                |j: int| if validity@[j] { (*inner).values()[j] } else { Val::Null },
            ),
        }
    }

    /// The element kind, wrappers stripped.
    pub open spec fn spec_shape(self) -> Shape
        decreases self,
    {
        match self {
            Column::Ints { ty, data } => Shape::SInt(ty),
            Column::Bools { data } => Shape::SBool,
            Column::Strs { data } => Shape::SStr,
            Column::Const { inner, len } => (*inner).spec_shape(),
            Column::Nullable { inner, validity } => (*inner).spec_shape(),
        }
    }

    pub fn shape(&self) -> (r: Shape)
        ensures
            r == self.spec_shape(),
        decreases *self,
    {
        match self {
            Column::Ints { ty, data } => Shape::SInt(*ty),
            Column::Bools { data } => Shape::SBool,
            Column::Strs { data } => Shape::SStr,
            Column::Const { inner, len } => inner.shape(),
            Column::Nullable { inner, validity } => inner.shape(),
        }
    }

    pub open spec fn spec_is_const(&self) -> bool {
        self is Const
    }

    #[verifier::when_used_as_spec(spec_is_const)]
    pub fn is_const(&self) -> (r: bool)
        ensures
            r == self.spec_is_const(),
    {
        matches!(self, Column::Const { .. })
    }

    pub open spec fn spec_is_nullable(&self) -> bool {
        self is Nullable
    }

    #[verifier::when_used_as_spec(spec_is_nullable)]
    pub fn is_nullable(&self) -> (r: bool)
        ensures
            r == self.spec_is_nullable(),
    {
        matches!(self, Column::Nullable { .. })
    }

    /// A column whose view contains no `Val::Null` row.
    pub open spec fn no_nulls(self) -> bool {
        forall|j: int| 0 <= j < self.values().len() ==> !(#[trigger] self.values()[j] is Null)
    }

    pub fn len(&self) -> (r: usize)
        ensures
            r == self.values().len(),
    {
        match self {
            Column::Ints { ty, data } => data.len(),
            Column::Bools { data } => data.len(),
            Column::Strs { data } => data.len(),
            Column::Const { inner, len } => *len,
            Column::Nullable { inner, validity } => validity.len(),
        }
    }

    /// Reads row `i` of an integer-shaped column: the cell value and whether
    /// the row is valid (an invalid row's value is `Null` and the returned
    /// integer is unspecified but in range).
    pub fn int_at(&self, i: usize) -> (r: (i128, bool))
        requires
            self.wf(),
            self.spec_shape() is SInt,
            i < self.values().len(),
        ensures
            r.1 ==> self.values()[i as int] == Val::Int(r.0 as int),
            !r.1 ==> self.values()[i as int] is Null,
            self.spec_shape()->SInt_0.in_range(r.0 as int),
        decreases *self,
    {
        match self {
            Column::Ints { ty, data } => (data[i], true),
            Column::Const { inner, len } => inner.int_at(0),
            Column::Nullable { inner, validity } => {
                if validity[i] {
                    inner.int_at(i)
                } else {
                    let (v, _) = inner.int_at(i);
                    (v, false)
                }
            },
            _ => {
                proof {
                    assert(false);
                }
                (0, false)
            },
        }
    }

    /// Reads row `i` of a boolean-shaped column.
    pub fn bool_at(&self, i: usize) -> (r: (bool, bool))
        requires
            self.wf(),
            self.spec_shape() is SBool,
            i < self.values().len(),
        ensures
            r.1 ==> self.values()[i as int] == Val::Bool(r.0),
            !r.1 ==> self.values()[i as int] is Null,
        decreases *self,
    {
        match self {
            Column::Bools { data } => (data[i], true),
            Column::Const { inner, len } => inner.bool_at(0),
            Column::Nullable { inner, validity } => {
                if validity[i] {
                    inner.bool_at(i)
                } else {
                    (false, false)
                }
            },
            _ => {
                proof {
                    assert(false);
                }
                (false, false)
            },
        }
    }

    /// Reads row `i` of a string-shaped column (cloning the cell).
    pub fn str_at(&self, i: usize) -> (r: (String, bool))
        requires
            self.wf(),
            self.spec_shape() is SStr,
            i < self.values().len(),
        ensures
            r.1 ==> self.values()[i as int] == Val::Str(r.0@),
            !r.1 ==> self.values()[i as int] is Null,
        decreases *self,
    {
        match self {
            Column::Strs { data } => (data[i].clone(), true),
            Column::Const { inner, len } => inner.str_at(0),
            Column::Nullable { inner, validity } => {
                if validity[i] {
                    inner.str_at(i)
                } else {
                    (String::new(), false)
                }
            },
            _ => {
                proof {
                    assert(false);
                }
                (String::new(), false)
            },
        }
    }


    /// The column beneath a nullable wrapper (or the column itself): its
    /// cells agree with this column's on every non-null row.
    pub fn strip_nullable(&self) -> (r: &Column)
        requires
            self.wf(),
        ensures
            r.wf(),
            !r.spec_is_nullable(),
            r.spec_shape() == self.spec_shape(),
            r.values().len() == self.values().len(),
            forall|j: int|
                0 <= j < self.values().len() && !(self.values()[j] is Null)
                    ==> #[trigger] r.values()[j] == self.values()[j],
    {
        match self {
            Column::Nullable { inner, validity } => &**inner,
            _ => self,
        }
    }

    /// Whether row `i` is valid (non-null).
    pub fn valid_at(&self, i: usize) -> (r: bool)
        requires
            self.wf(),
            i < self.values().len(),
        ensures
            r == !(self.values()[i as int] is Null),
        decreases *self,
    {
        match self {
            Column::Nullable { inner, validity } => {
                if validity[i] {
                    proof {
                        lemma_wf_base_or_const_no_nulls(**inner);
                    }
                    true
                } else {
                    false
                }
            },
            Column::Const { inner, len } => inner.valid_at(0),
            _ => {
                proof {
                    lemma_wf_base_or_const_no_nulls(*self);
                }
                true
            },
        }
    }
}


/// Every cell of a well-formed integer-shaped column is an integer or
/// null.
pub proof fn lemma_int_shape_vals(c: Column)
    requires
        c.wf(),
        c.spec_shape() is SInt,
    ensures
        forall|j: int|
            0 <= j < c.values().len() ==> ((#[trigger] c.values()[j]) is Int || c.values()[j]
                is Null),
    decreases c,
{
    match c {
        Column::Const { inner, len } => {
            lemma_int_shape_vals(*inner);
            assert forall|j: int| 0 <= j < c.values().len() implies ((#[trigger] c.values()[j])
                is Int || c.values()[j] is Null) by {
                assert(c.values()[j] == (*inner).values()[0]);
            }
        },
        Column::Nullable { inner, validity } => {
            lemma_int_shape_vals(*inner);
            assert forall|j: int| 0 <= j < c.values().len() implies ((#[trigger] c.values()[j])
                is Int || c.values()[j] is Null) by {
                if validity@[j] {
                    assert(c.values()[j] == (*inner).values()[j]);
                }
            }
        },
        _ => {},
    }
}

/// A base or constant column (no nullable wrapper) contains no null rows.
pub proof fn lemma_wf_base_or_const_no_nulls(c: Column)
    requires
        c.wf(),
        !(c is Nullable),
    ensures
        c.no_nulls(),
    decreases c,
{
    match c {
        Column::Const { inner, len } => {
            lemma_wf_base_or_const_no_nulls(*inner);
        },
        _ => {},
    }
}

/// The ordered concatenation of the logical contents of a list of columns.
pub open spec fn concat_values(cols: Seq<&Column>) -> Seq<Val>
    decreases cols.len(),
{
    if cols.len() == 0 {
        Seq::empty()
    } else {
        concat_values(cols.drop_last()) + cols.last().values()
    }
}

/// A well-formed integer-shaped column's element type is integer-backed.
proof fn lemma_shape_ty_backed(c: Column)
    requires
        c.wf(),
        c.spec_shape() is SInt,
    ensures
        c.spec_shape()->SInt_0.spec_is_integer_backed(),
    decreases c,
{
    match c {
        Column::Const { inner, len } => lemma_shape_ty_backed(*inner),
        Column::Nullable { inner, validity } => lemma_shape_ty_backed(*inner),
        _ => {},
    }
}

/// Reads every row of every column, in order, into a flat cell vector plus
/// a validity vector.
fn gather_int_rows(cols: &Vec<&Column>) -> (out: (Vec<i128>, Vec<bool>))
    requires
        cols@.len() > 0,
        forall|k: int| 0 <= k < cols@.len() ==> (#[trigger] cols@[k]).wf(),
        forall|k: int|
            0 <= k < cols@.len() ==> (#[trigger] cols@[k]).spec_shape() == cols@[0].spec_shape(),
        cols@[0].spec_shape() is SInt,
    ensures
        out.0@.len() == concat_values(cols@).len(),
        out.1@.len() == out.0@.len(),
        forall|t: int|
            0 <= t < out.0@.len() ==> ((#[trigger] out.1@[t]) ==> concat_values(cols@)[t]
                == Val::Int(out.0@[t] as int)),
        forall|t: int|
            0 <= t < out.0@.len() ==> (!(#[trigger] out.1@[t]) ==> concat_values(cols@)[t]
                is Null),
        forall|t: int|
            0 <= t < out.0@.len() ==> cols@[0].spec_shape()->SInt_0.in_range(
                #[trigger] out.0@[t] as int,
            ),
        (forall|k: int| 0 <= k < cols@.len() ==> !(#[trigger] cols@[k]).spec_is_nullable())
            ==> (forall|t: int| 0 <= t < out.1@.len() ==> #[trigger] out.1@[t]),
{
    let n = cols.len();
    let mut data: Vec<i128> = Vec::new();
    let mut validity: Vec<bool> = Vec::new();
    let mut k: usize = 0;
    while k < n
        invariant
            n == cols@.len(),
            n > 0,
            k <= n,
            forall|t: int| 0 <= t < n ==> (#[trigger] cols@[t]).wf(),
            forall|t: int|
                0 <= t < n ==> (#[trigger] cols@[t]).spec_shape() == cols@[0].spec_shape(),
            cols@[0].spec_shape() is SInt,
            data@.len() == validity@.len(),
            data@.len() == concat_values(cols@.take(k as int)).len(),
            forall|t: int|
                0 <= t < data@.len() ==> ((#[trigger] validity@[t]) ==> concat_values(
                    cols@.take(k as int),
                )[t] == Val::Int(data@[t] as int)),
            forall|t: int|
                0 <= t < data@.len() ==> (!(#[trigger] validity@[t]) ==> concat_values(
                    cols@.take(k as int),
                )[t] is Null),
            forall|t: int|
                0 <= t < data@.len() ==> cols@[0].spec_shape()->SInt_0.in_range(
                    #[trigger] data@[t] as int,
                ),
            (forall|t: int| 0 <= t < n ==> !(#[trigger] cols@[t]).spec_is_nullable()) ==> (
            forall|t: int| 0 <= t < validity@.len() ==> #[trigger] validity@[t]),
        decreases n - k,
    {
        let col = cols[k];
        let m = col.len();
        let mut j: usize = 0;
        while j < m
            invariant
                n == cols@.len(),
                k < n,
                forall|t: int| 0 <= t < n ==> (#[trigger] cols@[t]).wf(),
                forall|t: int|
                    0 <= t < n ==> (#[trigger] cols@[t]).spec_shape() == cols@[0].spec_shape(),
                cols@[0].spec_shape() is SInt,
                col == cols@[k as int],
                m == col.values().len(),
                j <= m,
                data@.len() == validity@.len(),
                data@.len() == concat_values(cols@.take(k as int)).len() + j,
                forall|t: int|
                    0 <= t < data@.len() ==> ((#[trigger] validity@[t]) ==> (concat_values(
                        cols@.take(k as int),
                    ) + col.values().take(j as int))[t] == Val::Int(data@[t] as int)),
                forall|t: int|
                    0 <= t < data@.len() ==> (!(#[trigger] validity@[t]) ==> (concat_values(
                        cols@.take(k as int),
                    ) + col.values().take(j as int))[t] is Null),
                forall|t: int|
                    0 <= t < data@.len() ==> cols@[0].spec_shape()->SInt_0.in_range(
                        #[trigger] data@[t] as int,
                    ),
                (forall|t: int| 0 <= t < n ==> !(#[trigger] cols@[t]).spec_is_nullable()) ==> (
                forall|t: int| 0 <= t < validity@.len() ==> #[trigger] validity@[t]),
            decreases m - j,
        {
            let (v, ok) = col.int_at(j);
            proof {
                if !col.spec_is_nullable() {
                    lemma_wf_base_or_const_no_nulls(*col);
                }
            }
            data.push(v);
            validity.push(ok);
            j += 1;
        }
        proof {
            assert(cols@.take(k as int + 1).drop_last() =~= cols@.take(k as int));
            assert(cols@.take(k as int + 1).last() == cols@[k as int]);
            assert(col.values().take(m as int) =~= col.values());
        }
        k += 1;
    }
    proof {
        assert(cols@.take(n as int) =~= cols@);
    }
    (data, validity)
}

/// As `gather_int_rows`, for boolean-shaped columns.
fn gather_bool_rows(cols: &Vec<&Column>) -> (out: (Vec<bool>, Vec<bool>))
    requires
        cols@.len() > 0,
        forall|k: int| 0 <= k < cols@.len() ==> (#[trigger] cols@[k]).wf(),
        forall|k: int|
            0 <= k < cols@.len() ==> (#[trigger] cols@[k]).spec_shape() == cols@[0].spec_shape(),
        cols@[0].spec_shape() is SBool,
    ensures
        out.0@.len() == concat_values(cols@).len(),
        out.1@.len() == out.0@.len(),
        forall|t: int|
            0 <= t < out.0@.len() ==> ((#[trigger] out.1@[t]) ==> concat_values(cols@)[t]
                == Val::Bool(out.0@[t])),
        forall|t: int|
            0 <= t < out.0@.len() ==> (!(#[trigger] out.1@[t]) ==> concat_values(cols@)[t]
                is Null),
        (forall|k: int| 0 <= k < cols@.len() ==> !(#[trigger] cols@[k]).spec_is_nullable())
            ==> (forall|t: int| 0 <= t < out.1@.len() ==> #[trigger] out.1@[t]),
{
    let n = cols.len();
    let mut data: Vec<bool> = Vec::new();
    let mut validity: Vec<bool> = Vec::new();
    let mut k: usize = 0;
    while k < n
        invariant
            n == cols@.len(),
            n > 0,
            k <= n,
            forall|t: int| 0 <= t < n ==> (#[trigger] cols@[t]).wf(),
            forall|t: int|
                0 <= t < n ==> (#[trigger] cols@[t]).spec_shape() == cols@[0].spec_shape(),
            cols@[0].spec_shape() is SBool,
            data@.len() == validity@.len(),
            data@.len() == concat_values(cols@.take(k as int)).len(),
            forall|t: int|
                0 <= t < data@.len() ==> ((#[trigger] validity@[t]) ==> concat_values(
                    cols@.take(k as int),
                )[t] == Val::Bool(data@[t])),
            forall|t: int|
                0 <= t < data@.len() ==> (!(#[trigger] validity@[t]) ==> concat_values(
                    cols@.take(k as int),
                )[t] is Null),
            (forall|t: int| 0 <= t < n ==> !(#[trigger] cols@[t]).spec_is_nullable()) ==> (
            forall|t: int| 0 <= t < validity@.len() ==> #[trigger] validity@[t]),
        decreases n - k,
    {
        let col = cols[k];
        let m = col.len();
        let mut j: usize = 0;
        while j < m
            invariant
                n == cols@.len(),
                k < n,
                forall|t: int| 0 <= t < n ==> (#[trigger] cols@[t]).wf(),
                forall|t: int|
                    0 <= t < n ==> (#[trigger] cols@[t]).spec_shape() == cols@[0].spec_shape(),
                cols@[0].spec_shape() is SBool,
                col == cols@[k as int],
                m == col.values().len(),
                j <= m,
                data@.len() == validity@.len(),
                data@.len() == concat_values(cols@.take(k as int)).len() + j,
                forall|t: int|
                    0 <= t < data@.len() ==> ((#[trigger] validity@[t]) ==> (concat_values(
                        cols@.take(k as int),
                    ) + col.values().take(j as int))[t] == Val::Bool(data@[t])),
                forall|t: int|
                    0 <= t < data@.len() ==> (!(#[trigger] validity@[t]) ==> (concat_values(
                        cols@.take(k as int),
                    ) + col.values().take(j as int))[t] is Null),
                (forall|t: int| 0 <= t < n ==> !(#[trigger] cols@[t]).spec_is_nullable()) ==> (
                forall|t: int| 0 <= t < validity@.len() ==> #[trigger] validity@[t]),
            decreases m - j,
        {
            let (v, ok) = col.bool_at(j);
            proof {
                if !col.spec_is_nullable() {
                    lemma_wf_base_or_const_no_nulls(*col);
                }
            }
            data.push(v);
            validity.push(ok);
            j += 1;
        }
        proof {
            assert(cols@.take(k as int + 1).drop_last() =~= cols@.take(k as int));
            assert(cols@.take(k as int + 1).last() == cols@[k as int]);
            assert(col.values().take(m as int) =~= col.values());
        }
        k += 1;
    }
    proof {
        assert(cols@.take(n as int) =~= cols@);
    }
    (data, validity)
}

/// As `gather_int_rows`, for string-shaped columns.
fn gather_str_rows(cols: &Vec<&Column>) -> (out: (Vec<String>, Vec<bool>))
    requires
        cols@.len() > 0,
        forall|k: int| 0 <= k < cols@.len() ==> (#[trigger] cols@[k]).wf(),
        forall|k: int|
            0 <= k < cols@.len() ==> (#[trigger] cols@[k]).spec_shape() == cols@[0].spec_shape(),
        cols@[0].spec_shape() is SStr,
    ensures
        out.0@.len() == concat_values(cols@).len(),
        out.1@.len() == out.0@.len(),
        forall|t: int|
            0 <= t < out.0@.len() ==> ((#[trigger] out.1@[t]) ==> concat_values(cols@)[t]
                == Val::Str(out.0@[t]@)),
        forall|t: int|
            0 <= t < out.0@.len() ==> (!(#[trigger] out.1@[t]) ==> concat_values(cols@)[t]
                is Null),
        (forall|k: int| 0 <= k < cols@.len() ==> !(#[trigger] cols@[k]).spec_is_nullable())
            ==> (forall|t: int| 0 <= t < out.1@.len() ==> #[trigger] out.1@[t]),
{
    let n = cols.len();
    let mut data: Vec<String> = Vec::new();
    let mut validity: Vec<bool> = Vec::new();
    let mut k: usize = 0;
    while k < n
        invariant
            n == cols@.len(),
            n > 0,
            k <= n,
            forall|t: int| 0 <= t < n ==> (#[trigger] cols@[t]).wf(),
            forall|t: int|
                0 <= t < n ==> (#[trigger] cols@[t]).spec_shape() == cols@[0].spec_shape(),
            cols@[0].spec_shape() is SStr,
            data@.len() == validity@.len(),
            data@.len() == concat_values(cols@.take(k as int)).len(),
            forall|t: int|
                0 <= t < data@.len() ==> ((#[trigger] validity@[t]) ==> concat_values(
                    cols@.take(k as int),
                )[t] == Val::Str(data@[t]@)),
            forall|t: int|
                0 <= t < data@.len() ==> (!(#[trigger] validity@[t]) ==> concat_values(
                    cols@.take(k as int),
                )[t] is Null),
            (forall|t: int| 0 <= t < n ==> !(#[trigger] cols@[t]).spec_is_nullable()) ==> (
            forall|t: int| 0 <= t < validity@.len() ==> #[trigger] validity@[t]),
        decreases n - k,
    {
        let col = cols[k];
        let m = col.len();
        let mut j: usize = 0;
        while j < m
            invariant
                n == cols@.len(),
                k < n,
                forall|t: int| 0 <= t < n ==> (#[trigger] cols@[t]).wf(),
                forall|t: int|
                    0 <= t < n ==> (#[trigger] cols@[t]).spec_shape() == cols@[0].spec_shape(),
                cols@[0].spec_shape() is SStr,
                col == cols@[k as int],
                m == col.values().len(),
                j <= m,
                data@.len() == validity@.len(),
                data@.len() == concat_values(cols@.take(k as int)).len() + j,
                forall|t: int|
                    0 <= t < data@.len() ==> ((#[trigger] validity@[t]) ==> (concat_values(
                        cols@.take(k as int),
                    ) + col.values().take(j as int))[t] == Val::Str(data@[t]@)),
                forall|t: int|
                    0 <= t < data@.len() ==> (!(#[trigger] validity@[t]) ==> (concat_values(
                        cols@.take(k as int),
                    ) + col.values().take(j as int))[t] is Null),
                (forall|t: int| 0 <= t < n ==> !(#[trigger] cols@[t]).spec_is_nullable()) ==> (
                forall|t: int| 0 <= t < validity@.len() ==> #[trigger] validity@[t]),
            decreases m - j,
        {
            let (v, ok) = col.str_at(j);
            proof {
                if !col.spec_is_nullable() {
                    lemma_wf_base_or_const_no_nulls(*col);
                }
            }
            data.push(v);
            validity.push(ok);
            j += 1;
        }
        proof {
            assert(cols@.take(k as int + 1).drop_last() =~= cols@.take(k as int));
            assert(cols@.take(k as int + 1).last() == cols@[k as int]);
            assert(col.values().take(m as int) =~= col.values());
        }
        k += 1;
    }
    proof {
        assert(cols@.take(n as int) =~= cols@);
    }
    (data, validity)
}

/// Concatenates columns of one physical shape into a single column whose
/// contents are the ordered concatenation of the inputs' contents; the
/// result is nullable exactly when some input is. Fails with a structural
/// mismatch when the shapes disagree.
pub fn concat_columns(cols: &Vec<&Column>) -> (r: Result<Column, ErrorCode>)
    requires
        cols@.len() > 0,
        forall|k: int| 0 <= k < cols@.len() ==> (#[trigger] cols@[k]).wf(),
    ensures
        match r {
            Ok(c) => {
                &&& forall|k: int|
                    0 <= k < cols@.len() ==> (#[trigger] cols@[k]).spec_shape()
                        == cols@[0].spec_shape()
                &&& c.wf()
                &&& c.spec_shape() == cols@[0].spec_shape()
                &&& c.values() == concat_values(cols@)
                &&& c.spec_is_nullable() == (exists|k: int|
                    0 <= k < cols@.len() && (#[trigger] cols@[k]).spec_is_nullable())
            },
            Err(e) => {
                &&& e.kind == ErrorKind::DataStructMismatch
                &&& exists|k: int|
                    0 <= k < cols@.len() && (#[trigger] cols@[k]).spec_shape()
                        != cols@[0].spec_shape()
            },
        },
{
    let n = cols.len();
    let shape0 = cols[0].shape();
    let mut k: usize = 1;
    while k < n
        invariant
            n == cols@.len(),
            n > 0,
            1 <= k <= n,
            shape0 == cols@[0].spec_shape(),
            forall|t: int| 0 <= t < n ==> (#[trigger] cols@[t]).wf(),
            forall|t: int| 0 <= t < k ==> (#[trigger] cols@[t]).spec_shape() == shape0,
        decreases n - k,
    {
        if cols[k].shape() != shape0 {
            return Err(
                ErrorCode::new(
                    ErrorKind::DataStructMismatch,
                    String::from_str("Columns with different physical shapes cannot be concatenated"),
                ),
            );
        }
        k += 1;
    }
    let mut any_nullable = false;
    let mut k: usize = 0;
    while k < n
        invariant
            n == cols@.len(),
            k <= n,
            any_nullable ==> exists|t: int|
                0 <= t < k && (#[trigger] cols@[t]).spec_is_nullable(),
            !any_nullable ==> forall|t: int|
                0 <= t < k ==> !(#[trigger] cols@[t]).spec_is_nullable(),
        decreases n - k,
    {
        if cols[k].is_nullable() {
            any_nullable = true;
        }
        k += 1;
    }
    match shape0 {
        Shape::SInt(ty) => {
            proof {
                lemma_shape_ty_backed(*cols@[0]);
            }
            let (data, validity) = gather_int_rows(cols);
            let ghost gdata = data@;
            let inner = Column::Ints { ty, data };
            proof {
                assert(inner.values() =~= gdata.map_values(|v: i128| Val::Int(v as int)));
            }
            if any_nullable {
                proof {
                    assert(inner.wf());
                    assert(inner.spec_shape() == cols@[0].spec_shape());
                }
                let c = Column::Nullable { inner: Box::new(inner), validity };
                proof {
                    assert(c.wf());
                    assert(c.spec_shape() == cols@[0].spec_shape());
                    assert(c.values() =~= concat_values(cols@));
                }
                Ok(c)
            } else {
                proof {
                    assert(forall|t: int|
                        0 <= t < validity@.len() ==> #[trigger] validity@[t]);
                    assert forall|t: int|
                        0 <= t < gdata.len() implies #[trigger] concat_values(cols@)[t] == Val::Int(gdata[t] as int) by {
                        assert(validity@[t]);
                    }
                    assert(inner.values() =~= concat_values(cols@));
                    assert(inner.wf());
                    assert(inner.spec_shape() == cols@[0].spec_shape());
                }
                Ok(inner)
            }
        },
        Shape::SBool => {
            let (data, validity) = gather_bool_rows(cols);
            let ghost gdata = data@;
            let inner = Column::Bools { data };
            proof {
                assert(inner.values() =~= gdata.map_values(|b: bool| Val::Bool(b)));
            }
            if any_nullable {
                proof {
                    assert(inner.wf());
                    assert(inner.spec_shape() == cols@[0].spec_shape());
                }
                let c = Column::Nullable { inner: Box::new(inner), validity };
                proof {
                    assert(c.wf());
                    assert(c.spec_shape() == cols@[0].spec_shape());
                    assert(c.values() =~= concat_values(cols@));
                }
                Ok(c)
            } else {
                proof {
                    assert(forall|t: int|
                        0 <= t < validity@.len() ==> #[trigger] validity@[t]);
                    assert forall|t: int|
                        0 <= t < gdata.len() implies #[trigger] concat_values(cols@)[t] == Val::Bool(gdata[t]) by {
                        assert(validity@[t]);
                    }
                    assert(inner.values() =~= concat_values(cols@));
                    assert(inner.wf());
                    assert(inner.spec_shape() == cols@[0].spec_shape());
                }
                Ok(inner)
            }
        },
        Shape::SStr => {
            let (data, validity) = gather_str_rows(cols);
            let ghost gdata = data@;
            let inner = Column::Strs { data };
            proof {
                assert(inner.values() =~= gdata.map_values(|s: String| Val::Str(s@)));
            }
            if any_nullable {
                proof {
                    assert(inner.wf());
                    assert(inner.spec_shape() == cols@[0].spec_shape());
                }
                let c = Column::Nullable { inner: Box::new(inner), validity };
                proof {
                    assert(c.wf());
                    assert(c.spec_shape() == cols@[0].spec_shape());
                    assert(c.values() =~= concat_values(cols@));
                }
                Ok(c)
            } else {
                proof {
                    assert(forall|t: int|
                        0 <= t < validity@.len() ==> #[trigger] validity@[t]);
                    assert forall|t: int|
                        0 <= t < gdata.len() implies #[trigger] concat_values(cols@)[t] == Val::Str(gdata[t]@) by {
                        assert(validity@[t]);
                    }
                    assert(inner.values() =~= concat_values(cols@));
                    assert(inner.wf());
                    assert(inner.spec_shape() == cols@[0].spec_shape());
                }
                Ok(inner)
            }
        },
    }
}


} // verus!
