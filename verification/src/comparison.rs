//! The less-than comparison over integer columns: a boolean per row, with
//! automatic null propagation.

use vstd::prelude::*;

use crate::column::lemma_int_shape_vals;
use crate::column::lemma_wf_base_or_const_no_nulls;
use crate::column::Column;
use crate::column::Shape;
use crate::column::Val;
use crate::error::ErrorCode;
use crate::factory::Function2Description;
use crate::factory::FunctionFeatures;
use crate::factory::FunctionKind;

verus! {

/// The per-row result: whether the left integer is strictly below the
/// right, null when either row is null.
pub open spec fn lt_row(lv: Val, rv: Val) -> Val {
    if lv is Int && rv is Int {
        Val::Bool(lv->Int_0 < rv->Int_0)
    } else {
        Val::Null
    }
}

#[derive(Debug)]
pub struct ComparisonLtFunction;

impl ComparisonLtFunction {
    pub fn try_create_func(_display_name: &str) -> (r: Result<ComparisonLtFunction, ErrorCode>)
        ensures
            r is Ok,
    {
        Ok(ComparisonLtFunction {  })
    }

    /// The registry entry: a deterministic boolean predicate of two
    /// arguments whose negated form is `>=`.
    pub fn desc() -> (r: Function2Description)
        ensures
            r.kind == FunctionKind::ComparisonLt,
            r.features.is_deterministic,
            r.features.is_bool_func,
            r.features.num_arguments == 2,
            r.features.negative_function_name matches Some(s) && s@ == ">="@,
            !r.features.maybe_monotonic,
    {
        Function2Description::creator(FunctionKind::ComparisonLt).features(
            FunctionFeatures::default().deterministic().negative_function(
                ">=",
            ).bool_function().num_arguments(2),
        )
    }

    /// Evaluates `<` column-at-a-time: output row `j` is `lt_row` of the
    /// input rows `j`.
    pub fn eval(&self, l: &Column, r: &Column) -> (res: Column)
        requires
            l.wf(),
            r.wf(),
            l.spec_shape() is SInt,
            r.spec_shape() is SInt,
            l.values().len() == r.values().len(),
        ensures
            res.wf(),
            res.spec_shape() == Shape::SBool,
            res.values().len() == l.values().len(),
            res.spec_is_nullable() == (l.spec_is_nullable() || r.spec_is_nullable()),
            forall|j: int|
                0 <= j < res.values().len() ==> #[trigger] res.values()[j] == lt_row(
                    l.values()[j],
                    r.values()[j],
                ),
    {
        proof {
            lemma_int_shape_vals(*l);
            lemma_int_shape_vals(*r);
        }
        let nullable = l.is_nullable() || r.is_nullable();
        proof {
            if !nullable {
                lemma_wf_base_or_const_no_nulls(*l);
                lemma_wf_base_or_const_no_nulls(*r);
            }
        }
        let n = l.len();
        let mut data: Vec<bool> = Vec::new();
        let mut validity: Vec<bool> = Vec::new();
        let mut j: usize = 0;
        while j < n
            invariant
                l.wf(),
                r.wf(),
                l.spec_shape() is SInt,
                r.spec_shape() is SInt,
                n == l.values().len(),
                l.values().len() == r.values().len(),
                nullable == (l.spec_is_nullable() || r.spec_is_nullable()),
                !nullable ==> l.no_nulls() && r.no_nulls(),
                forall|t: int|
                    0 <= t < n ==> ((#[trigger] l.values()[t]) is Int || l.values()[t] is Null),
                forall|t: int|
                    0 <= t < n ==> ((#[trigger] r.values()[t]) is Int || r.values()[t] is Null),
                j <= n,
                data@.len() == j,
                validity@.len() == j,
                forall|t: int|
                    0 <= t < j ==> ((#[trigger] validity@[t]) ==> lt_row(
                        l.values()[t],
                        r.values()[t],
                    ) == Val::Bool(data@[t])),
                forall|t: int|
                    0 <= t < j ==> (!(#[trigger] validity@[t]) ==> lt_row(
                        l.values()[t],
                        r.values()[t],
                    ) is Null),
                !nullable ==> (forall|t: int| 0 <= t < j ==> #[trigger] validity@[t]),
            decreases n - j,
        {
            let (a, aok) = l.int_at(j);
            let (b, bok) = r.int_at(j);
            data.push(a < b);
            validity.push(aok && bok);
            j += 1;
        }
        let ghost gdata = data@;
        let inner = Column::Bools { data };
        proof {
            assert(inner.values() =~= gdata.map_values(|b: bool| Val::Bool(b)));
            assert(inner.wf());
            assert(inner.spec_shape() == Shape::SBool);
        }
        if nullable {
            let c = Column::Nullable { inner: Box::new(inner), validity };
            proof {
                assert(c.wf());
                assert(c.spec_shape() == inner.spec_shape());
                assert forall|t: int| 0 <= t < n implies #[trigger] c.values()[t] == lt_row(
                    l.values()[t],
                    r.values()[t],
                ) by {
                    assert(c.values()[t] == if validity@[t] {
                        inner.values()[t]
                    } else {
                        Val::Null
                    });
                }
            }
            c
        } else {
            proof {
                assert forall|t: int| 0 <= t < n implies #[trigger] inner.values()[t] == lt_row(
                    l.values()[t],
                    r.values()[t],
                ) by {
                    assert(validity@[t]);
                }
            }
            inner
        }
    }
}

} // verus!
