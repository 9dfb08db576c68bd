//! The generic two-input one-output integer kernel, specialized over the
//! four (array, constant) combinations so that a constant operand is read
//! once and broadcast rather than re-materialized per row.

use vstd::prelude::*;

use crate::coercion::wrap_cell;
use crate::coercion::wrap_to;
use crate::column::Column;
use crate::column::Shape;
use crate::column::Val;
use crate::type_id::TypeID;

verus! {

#[derive(Clone, Copy, PartialEq, Eq, Structural, Debug)]
pub enum DataValueBinaryOperator {
    Plus,
    Minus,
    Div,
}

impl DataValueBinaryOperator {
    /// The operator's name, as it appears in error messages.
    pub open spec fn spec_symbol(self) -> Seq<char> {
        match self {
            DataValueBinaryOperator::Plus => "plus"@,
            DataValueBinaryOperator::Minus => "minus"@,
            DataValueBinaryOperator::Div => "divide"@,
        }
    }

    pub fn symbol(self) -> (r: &'static str)
        ensures
            r@ == self.spec_symbol(),
    {
        match self {
            DataValueBinaryOperator::Plus => "plus",
            DataValueBinaryOperator::Minus => "minus",
            DataValueBinaryOperator::Div => "divide",
        }
    }
}

/// The value of one output cell of an integer kernel: the exact sum or
/// difference, wrapped into the result type's width. (Division produces
/// floating-point results and has no integer kernel here.)
pub open spec fn apply_op(
    op: DataValueBinaryOperator,
    result_id: TypeID,
    x: int,
    y: int,
) -> int {
    match op {
        DataValueBinaryOperator::Plus => wrap_to(result_id, x + y),
        DataValueBinaryOperator::Minus => wrap_to(result_id, x - y),
        DataValueBinaryOperator::Div => 0,
    }
}

/// A compiled binary scalar kernel: an operator plus the physical result
/// type every output cell is reduced into.
pub struct ScalarBinaryExpression {
    pub op: DataValueBinaryOperator,
    pub result_id: TypeID,
}

impl ScalarBinaryExpression {
    pub fn new(op: DataValueBinaryOperator, result_id: TypeID) -> (r: Self)
        ensures
            r.op == op,
            r.result_id == result_id,
    {
        ScalarBinaryExpression { op, result_id }
    }

    /// One application of the kernel to a pair of cells.
    fn apply_cell(&self, a: i128, b: i128) -> (c: i128)
        requires
            self.op == DataValueBinaryOperator::Plus || self.op == DataValueBinaryOperator::Minus,
            self.result_id.spec_is_integer_backed(),
            -0x1_0000_0000_0000_0000 <= a <= 0x1_0000_0000_0000_0000,
            -0x1_0000_0000_0000_0000 <= b <= 0x1_0000_0000_0000_0000,
        ensures
            c as int == apply_op(self.op, self.result_id, a as int, b as int),
            self.result_id.in_range(c as int),
    {
        let s = if matches!(self.op, DataValueBinaryOperator::Plus) {
            a + b
        } else {
            a - b
        };
        wrap_cell(self.result_id, s)
    }

    /// Evaluates the kernel over two equal-length, non-nullable,
    /// integer-shaped columns. Mismatched lengths are a planner bug
    /// upstream and are excluded by precondition rather than reported.
    pub fn eval(&self, l: &Column, r: &Column) -> (res: Column)
        requires
            self.op == DataValueBinaryOperator::Plus || self.op == DataValueBinaryOperator::Minus,
            self.result_id.spec_is_integer_backed(),
            l.wf(),
            r.wf(),
            l.spec_shape() is SInt,
            r.spec_shape() is SInt,
            !l.spec_is_nullable(),
            !r.spec_is_nullable(),
            l.values().len() == r.values().len(),
        ensures
            res.wf(),
            res.spec_shape() == Shape::SInt(self.result_id),
            !res.spec_is_nullable(),
            !res.spec_is_const(),
            res.values().len() == l.values().len(),
            forall|j: int|
                0 <= j < res.values().len() ==> #[trigger] res.values()[j] == Val::Int(
                    apply_op(
                        self.op,
                        self.result_id,
                        l.values()[j]->Int_0,
                        r.values()[j]->Int_0,
                    ),
                ),
    {
        let n = l.len();
        let mut data: Vec<i128> = Vec::new();
        proof {
            crate::column::lemma_wf_base_or_const_no_nulls(*l);
            crate::column::lemma_wf_base_or_const_no_nulls(*r);
        }
        match (l.is_const(), r.is_const()) {
            (false, true) => {
                if n > 0 {
                    let (b, _) = r.int_at(0);
                    let mut j: usize = 0;
                    while j < n
                        invariant
                            self.op == DataValueBinaryOperator::Plus || self.op
                                == DataValueBinaryOperator::Minus,
                            self.result_id.spec_is_integer_backed(),
                            l.wf(),
                            r.wf(),
                            l.spec_shape() is SInt,
                            r.spec_shape() is SInt,
                            l.no_nulls(),
                            r.no_nulls(),
                            r is Const,
                            n == l.values().len(),
                            l.values().len() == r.values().len(),
                            n > 0,
                            r.values()[0] == Val::Int(b as int),
                            r.spec_shape()->SInt_0.in_range(b as int),
                            j <= n,
                            data@.len() == j,
                            forall|t: int|
                                0 <= t < j ==> #[trigger] data@[t] as int == apply_op(
                                    self.op,
                                    self.result_id,
                                    l.values()[t]->Int_0,
                                    r.values()[t]->Int_0,
                                ),
                            forall|t: int|
                                0 <= t < j ==> self.result_id.in_range(#[trigger] data@[t] as int),
                        decreases n - j,
                    {
                        let (a, _) = l.int_at(j);
                        proof {
                            assert(r.values()[j as int] == r.values()[0]);
                        }
                        data.push(self.apply_cell(a, b));
                        j += 1;
                    }
                }
            },
            (true, false) => {
                if n > 0 {
                    let (a, _) = l.int_at(0);
                    let mut j: usize = 0;
                    while j < n
                        invariant
                            self.op == DataValueBinaryOperator::Plus || self.op
                                == DataValueBinaryOperator::Minus,
                            self.result_id.spec_is_integer_backed(),
                            l.wf(),
                            r.wf(),
                            l.spec_shape() is SInt,
                            r.spec_shape() is SInt,
                            l.no_nulls(),
                            r.no_nulls(),
                            l is Const,
                            n == l.values().len(),
                            l.values().len() == r.values().len(),
                            n > 0,
                            l.values()[0] == Val::Int(a as int),
                            l.spec_shape()->SInt_0.in_range(a as int),
                            j <= n,
                            data@.len() == j,
                            forall|t: int|
                                0 <= t < j ==> #[trigger] data@[t] as int == apply_op(
                                    self.op,
                                    self.result_id,
                                    l.values()[t]->Int_0,
                                    r.values()[t]->Int_0,
                                ),
                            forall|t: int|
                                0 <= t < j ==> self.result_id.in_range(#[trigger] data@[t] as int),
                        decreases n - j,
                    {
                        let (b, _) = r.int_at(j);
                        proof {
                            assert(l.values()[j as int] == l.values()[0]);
                        }
                        data.push(self.apply_cell(a, b));
                        j += 1;
                    }
                }
            },
            _ => {
                let mut j: usize = 0;
                while j < n
                    invariant
                        self.op == DataValueBinaryOperator::Plus || self.op
                            == DataValueBinaryOperator::Minus,
                        self.result_id.spec_is_integer_backed(),
                        l.wf(),
                        r.wf(),
                        l.spec_shape() is SInt,
                        r.spec_shape() is SInt,
                        l.no_nulls(),
                        r.no_nulls(),
                        n == l.values().len(),
                        l.values().len() == r.values().len(),
                        j <= n,
                        data@.len() == j,
                        forall|t: int|
                            0 <= t < j ==> #[trigger] data@[t] as int == apply_op(
                                self.op,
                                self.result_id,
                                l.values()[t]->Int_0,
                                r.values()[t]->Int_0,
                            ),
                        forall|t: int|
                            0 <= t < j ==> self.result_id.in_range(#[trigger] data@[t] as int),
                    decreases n - j,
                {
                    let (a, _) = l.int_at(j);
                    let (b, _) = r.int_at(j);
                    data.push(self.apply_cell(a, b));
                    j += 1;
                }
            },
        }
        let ghost gdata = data@;
        let res = Column::Ints { ty: self.result_id, data };
        proof {
            assert(res.values().len() == l.values().len());
            assert forall|j: int| 0 <= j < res.values().len() implies #[trigger] res.values()[j]
                == Val::Int(
                apply_op(self.op, self.result_id, l.values()[j]->Int_0, r.values()[j]->Int_0),
            ) by {
                assert(res.values()[j] == Val::Int(gdata[j] as int));
            }
        }
        res
    }
}

} // verus!
