//! The sign function: -1, 0 or 1 per row, null rows passing through.

use vstd::prelude::*;
use vstd::string::StringExecFns;

use crate::column::lemma_wf_base_or_const_no_nulls;
use crate::column::Column;
use crate::column::Shape;
use crate::column::Val;
use crate::data_type::BaseType;
use crate::data_type::DataType;
use crate::error::ErrorCode;
use crate::factory::Function2Description;
use crate::factory::FunctionFeatures;
use crate::factory::FunctionKind;
use crate::function_common::assert_numeric;
use crate::type_id::TypeID;

verus! {

/// The mathematical sign of a value.
pub open spec fn sign_of(v: int) -> int {
    if v > 0 {
        1
    } else if v < 0 {
        -1
    } else {
        0
    }
}

/// The per-row result: the sign of an integer row, null for a null row.
pub open spec fn sign_row(v: Val) -> Val {
    if v is Int {
        Val::Int(sign_of(v->Int_0))
    } else {
        Val::Null
    }
}

#[derive(Debug)]
pub struct SignFunction {
    pub display_name: String,
}

impl SignFunction {
    pub fn try_create(display_name: &str) -> (r: Result<SignFunction, ErrorCode>)
        ensures
            match r {
                Ok(f) => f.display_name@ == display_name@,
                Err(_) => false,
            },
    {
        Ok(SignFunction { display_name: display_name.to_owned() })
    }

    /// The registry entry: a deterministic function of one argument.
    pub fn desc() -> (r: Function2Description)
        ensures
            r.kind == FunctionKind::Sign,
            r.features.is_deterministic,
            r.features.num_arguments == 1,
    {
        Function2Description::creator(FunctionKind::Sign).features(
            FunctionFeatures::default().deterministic().num_arguments(1),
        )
    }

    /// Signs are returned as signed bytes; the argument must be numeric.
    pub fn return_type(&self, args: &[DataType]) -> (r: Result<DataType, ErrorCode>)
        requires
            args@.len() == 1,
        ensures
            match r {
                Ok(t) => args@[0].base.spec_id().spec_is_numeric() && t.base == BaseType::Int8
                    && !t.nullable,
                Err(e) => {
                    &&& !args@[0].base.spec_id().spec_is_numeric()
                    &&& e.kind == crate::error::ErrorKind::IllegalDataType
                    &&& (args@[0].base.spec_id() == TypeID::String ==> e.message@
                        == "Expected a numeric type, but got String"@)
                },
            },
    {
        match assert_numeric(&args[0]) {
            Ok(_) => Ok(DataType::new(BaseType::Int8)),
            Err(e) => Err(e),
        }
    }

    /// Evaluates the sign row by row, nulls passing through.
    pub fn eval(&self, col: &Column) -> (res: Column)
        requires
            col.wf(),
            col.spec_shape() is SInt,
        ensures
            res.wf(),
            res.spec_shape() == Shape::SInt(TypeID::Int8),
            res.values().len() == col.values().len(),
            res.spec_is_nullable() == col.spec_is_nullable(),
            forall|j: int|
                0 <= j < res.values().len() ==> #[trigger] res.values()[j] == sign_row(
                    col.values()[j],
                ),
    {
        let nullable = col.is_nullable();
        proof {
            if !nullable {
                lemma_wf_base_or_const_no_nulls(*col);
            }
        }
        let n = col.len();
        let mut data: Vec<i128> = Vec::new();
        let mut validity: Vec<bool> = Vec::new();
        let mut j: usize = 0;
        while j < n
            invariant
                col.wf(),
                col.spec_shape() is SInt,
                n == col.values().len(),
                nullable == col.spec_is_nullable(),
                !nullable ==> col.no_nulls(),
                j <= n,
                data@.len() == j,
                validity@.len() == j,
                forall|t: int|
                    0 <= t < j ==> ((#[trigger] validity@[t]) ==> col.values()[t] is Int
                        && data@[t] as int == sign_of(col.values()[t]->Int_0)),
                forall|t: int|
                    0 <= t < j ==> (!(#[trigger] validity@[t]) ==> col.values()[t] is Null),
                forall|t: int| 0 <= t < j ==> TypeID::Int8.in_range(#[trigger] data@[t] as int),
                !nullable ==> (forall|t: int| 0 <= t < j ==> #[trigger] validity@[t]),
            decreases n - j,
        {
            let (v, ok) = col.int_at(j);
            let s: i128 = if v > 0 {
                1
            } else if v < 0 {
                -1
            } else {
                0
            };
            data.push(s);
            validity.push(ok);
            j += 1;
        }
        let ghost gdata = data@;
        let inner = Column::Ints { ty: TypeID::Int8, data };
        proof {
            assert(inner.values() =~= gdata.map_values(|v: i128| Val::Int(v as int)));
            assert(inner.wf());
            assert(inner.spec_shape() == Shape::SInt(TypeID::Int8));
        }
        if nullable {
            let c = Column::Nullable { inner: Box::new(inner), validity };
            proof {
                assert(c.wf());
                assert(c.spec_shape() == inner.spec_shape());
                assert forall|t: int| 0 <= t < n implies #[trigger] c.values()[t] == sign_row(
                    col.values()[t],
                ) by {
                    assert(c.values()[t] == if validity@[t] {
                        inner.values()[t]
                    } else {
                        Val::Null
                    });
                }
            }
            c
        } else {
            proof {
                assert forall|t: int| 0 <= t < n implies #[trigger] inner.values()[t] == sign_row(
                    col.values()[t],
                ) by {
                    assert(validity@[t]);
                }
            }
            inner
        }
    }
}

} // verus!
