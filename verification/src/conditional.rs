//! The conditional function: row-wise selection between two branches by a
//! boolean predicate. Unlike the default kernels it must not blanket-
//! propagate nulls: a null (or false) predicate row selects the
//! else-branch value for that row, whatever the unselected branch holds.

use vstd::prelude::*;
use vstd::string::StringExecFns;

use crate::column::Column;
use crate::column::Shape;
use crate::column::Val;
use crate::data_type::base_type_eq;
use crate::data_type::DataType;
use crate::error::ErrorCode;
use crate::error::ErrorKind;
use crate::factory::Function2Description;
use crate::factory::FunctionFeatures;
use crate::factory::FunctionKind;

verus! {

/// The value selected for one row: the then-branch exactly when the
/// predicate row is a true boolean, the else-branch on false and on null.
pub open spec fn if_row(p: Val, a: Val, b: Val) -> Val {
    if p == Val::Bool(true) {
        a
    } else {
        b
    }
}

#[derive(Debug)]
pub struct IfFunction {
    pub display_name: String,
}

impl IfFunction {
    pub fn try_create(display_name: &str) -> (r: Result<IfFunction, ErrorCode>)
        ensures
            match r {
                Ok(f) => f.display_name@ == display_name@,
                Err(_) => false,
            },
    {
        Ok(IfFunction { display_name: display_name.to_owned() })
    }

    pub fn name(&self) -> (r: &'static str)
        ensures
            r@ == "IfFunction"@,
    {
        "IfFunction"
    }

    /// The registry entry: a deterministic function of three arguments.
    pub fn desc() -> (r: Function2Description)
        ensures
            r.kind == FunctionKind::If,
            r.features.is_deterministic,
            r.features.num_arguments == 3,
            !r.features.is_bool_func,
            !r.features.maybe_monotonic,
    {
        Function2Description::creator(FunctionKind::If).features(
            FunctionFeatures::default().deterministic().num_arguments(3),
        )
    }

    /// Nulls are handled by the predicate, not by blanket propagation.
    pub fn passthrough_null(&self) -> (r: bool)
        ensures
            !r,
    {
        false
    }

    /// The least common type of the two branches: their shared base type,
    /// nullable when either branch is. Fails when the base types differ.
    pub fn return_type(&self, args: &[DataType]) -> (r: Result<DataType, ErrorCode>)
        requires
            args@.len() == 3,
        ensures
            match r {
                Ok(t) => {
                    &&& base_type_eq(args@[1].base, args@[2].base)
                    &&& base_type_eq(t.base, args@[1].base)
                    &&& t.nullable == (args@[1].nullable || args@[2].nullable)
                },
                Err(e) => !base_type_eq(args@[1].base, args@[2].base) && e.kind
                    == ErrorKind::BadDataValueType,
            },
    {
        if args[1].base.equals(&args[2].base) {
            let base = args[1].base.duplicate();
            Ok(DataType { base, nullable: args[1].is_nullable() || args[2].is_nullable() })
        } else {
            Err(
                ErrorCode::new(
                    ErrorKind::BadDataValueType,
                    String::from_str("Branches of a conditional must share one base type"),
                ),
            )
        }
    }

    /// Evaluates the conditional: output row `j` is `if_row` of the
    /// predicate, then-branch and else-branch rows `j`. The predicate must
    /// be boolean-shaped and the branches must share one shape.
    pub fn eval(&self, predicate: &Column, lhs: &Column, rhs: &Column) -> (r: Result<
        Column,
        ErrorCode,
    >)
        requires
            predicate.wf(),
            lhs.wf(),
            rhs.wf(),
            predicate.values().len() == lhs.values().len(),
            lhs.values().len() == rhs.values().len(),
        ensures
            match r {
                Ok(c) => {
                    &&& predicate.spec_shape() is SBool
                    &&& lhs.spec_shape() == rhs.spec_shape()
                    &&& c.wf()
                    &&& c.spec_shape() == lhs.spec_shape()
                    &&& c.values().len() == lhs.values().len()
                    &&& c.spec_is_nullable() == (predicate.spec_is_nullable()
                        || lhs.spec_is_nullable() || rhs.spec_is_nullable())
                    &&& forall|j: int|
                        0 <= j < c.values().len() ==> #[trigger] c.values()[j] == if_row(
                            predicate.values()[j],
                            lhs.values()[j],
                            rhs.values()[j],
                        )
                },
                Err(e) => (!(predicate.spec_shape() is SBool) && e.kind
                    == ErrorKind::IllegalDataType) || (predicate.spec_shape() is SBool
                    && lhs.spec_shape() != rhs.spec_shape() && e.kind
                    == ErrorKind::BadDataValueType),
            },
    {
        if !matches!(predicate.shape(), Shape::SBool) {
            return Err(
                ErrorCode::new(
                    ErrorKind::IllegalDataType,
                    String::from_str("Conditional predicate must be a boolean column"),
                ),
            );
        }
        let shape = lhs.shape();
        if shape != rhs.shape() {
            return Err(
                ErrorCode::new(
                    ErrorKind::BadDataValueType,
                    String::from_str("Branches of a conditional must share one physical shape"),
                ),
            );
        }
        let nullable = predicate.is_nullable() || lhs.is_nullable() || rhs.is_nullable();
        proof {
            if !nullable {
                crate::column::lemma_wf_base_or_const_no_nulls(*predicate);
                crate::column::lemma_wf_base_or_const_no_nulls(*lhs);
                crate::column::lemma_wf_base_or_const_no_nulls(*rhs);
            }
        }
        let n = lhs.len();
        match shape {
            Shape::SInt(ty) => {
                proof {
                    lemma_if_ty_backed(*lhs);
                }
                let mut data: Vec<i128> = Vec::new();
                let mut validity: Vec<bool> = Vec::new();
                let mut j: usize = 0;
                while j < n
                    invariant
                        predicate.wf(),
                        lhs.wf(),
                        rhs.wf(),
                        predicate.spec_shape() is SBool,
                        lhs.spec_shape() == Shape::SInt(ty),
                        rhs.spec_shape() == Shape::SInt(ty),
                        ty.spec_is_integer_backed(),
                        n == lhs.values().len(),
                        predicate.values().len() == n,
                        rhs.values().len() == n,
                        nullable == (predicate.spec_is_nullable() || lhs.spec_is_nullable()
                            || rhs.spec_is_nullable()),
                        !nullable ==> predicate.no_nulls() && lhs.no_nulls() && rhs.no_nulls(),
                        j <= n,
                        data@.len() == j,
                        validity@.len() == j,
                        forall|t: int|
                            0 <= t < j ==> ((#[trigger] validity@[t]) ==> if_row(
                                predicate.values()[t],
                                lhs.values()[t],
                                rhs.values()[t],
                            ) == Val::Int(data@[t] as int)),
                        forall|t: int|
                            0 <= t < j ==> (!(#[trigger] validity@[t]) ==> if_row(
                                predicate.values()[t],
                                lhs.values()[t],
                                rhs.values()[t],
                            ) is Null),
                        forall|t: int| 0 <= t < j ==> ty.in_range(#[trigger] data@[t] as int),
                        !nullable ==> (forall|t: int| 0 <= t < j ==> #[trigger] validity@[t]),
                    decreases n - j,
                {
                    let (pv, pok) = predicate.bool_at(j);
                    let (v, ok) = if pv && pok {
                        lhs.int_at(j)
                    } else {
                        rhs.int_at(j)
                    };
                    data.push(v);
                    validity.push(ok);
                    j += 1;
                }
                let ghost gdata = data@;
                let inner = Column::Ints { ty, data };
                proof {
                    assert(inner.spec_shape() == Shape::SInt(ty));
                    assert(inner.values() =~= gdata.map_values(|v: i128| Val::Int(v as int)));
                    assert(inner.wf());
                }
                if nullable {
                    let c = Column::Nullable { inner: Box::new(inner), validity };
                    proof {
                        assert(c.wf());
                        assert(c.spec_shape() == inner.spec_shape());
                        assert(c.values().len() == n);
                        assert forall|t: int| 0 <= t < n implies #[trigger] c.values()[t]
                            == if_row(
                            predicate.values()[t],
                            lhs.values()[t],
                            rhs.values()[t],
                        ) by {
                            assert(c.values()[t] == if validity@[t] {
                                inner.values()[t]
                            } else {
                                Val::Null
                            });
                        }
                    }
                    Ok(c)
                } else {
                    proof {
                        assert forall|t: int| 0 <= t < n implies #[trigger] inner.values()[t]
                            == if_row(
                            predicate.values()[t],
                            lhs.values()[t],
                            rhs.values()[t],
                        ) by {
                            assert(validity@[t]);
                        }
                    }
                    Ok(inner)
                }
            },
            Shape::SBool => {
                let mut data: Vec<bool> = Vec::new();
                let mut validity: Vec<bool> = Vec::new();
                let mut j: usize = 0;
                while j < n
                    invariant
                        predicate.wf(),
                        lhs.wf(),
                        rhs.wf(),
                        predicate.spec_shape() is SBool,
                        lhs.spec_shape() == Shape::SBool,
                        rhs.spec_shape() == Shape::SBool,
                        n == lhs.values().len(),
                        predicate.values().len() == n,
                        rhs.values().len() == n,
                        nullable == (predicate.spec_is_nullable() || lhs.spec_is_nullable()
                            || rhs.spec_is_nullable()),
                        !nullable ==> predicate.no_nulls() && lhs.no_nulls() && rhs.no_nulls(),
                        j <= n,
                        data@.len() == j,
                        validity@.len() == j,
                        forall|t: int|
                            0 <= t < j ==> ((#[trigger] validity@[t]) ==> if_row(
                                predicate.values()[t],
                                lhs.values()[t],
                                rhs.values()[t],
                            ) == Val::Bool(data@[t])),
                        forall|t: int|
                            0 <= t < j ==> (!(#[trigger] validity@[t]) ==> if_row(
                                predicate.values()[t],
                                lhs.values()[t],
                                rhs.values()[t],
                            ) is Null),
                        !nullable ==> (forall|t: int| 0 <= t < j ==> #[trigger] validity@[t]),
                    decreases n - j,
                {
                    let (pv, pok) = predicate.bool_at(j);
                    let (v, ok) = if pv && pok {
                        lhs.bool_at(j)
                    } else {
                        rhs.bool_at(j)
                    };
                    data.push(v);
                    validity.push(ok);
                    j += 1;
                }
                let ghost gdata = data@;
                let inner = Column::Bools { data };
                proof {
                    assert(inner.spec_shape() == Shape::SBool);
                    assert(inner.values() =~= gdata.map_values(|b: bool| Val::Bool(b)));
                    assert(inner.wf());
                }
                if nullable {
                    let c = Column::Nullable { inner: Box::new(inner), validity };
                    proof {
                        assert(c.wf());
                        assert(c.spec_shape() == inner.spec_shape());
                        assert forall|t: int| 0 <= t < n implies #[trigger] c.values()[t]
                            == if_row(
                            predicate.values()[t],
                            lhs.values()[t],
                            rhs.values()[t],
                        ) by {
                            assert(c.values()[t] == if validity@[t] {
                                inner.values()[t]
                            } else {
                                Val::Null
                            });
                        }
                    }
                    Ok(c)
                } else {
                    proof {
                        assert forall|t: int| 0 <= t < n implies #[trigger] inner.values()[t]
                            == if_row(
                            predicate.values()[t],
                            lhs.values()[t],
                            rhs.values()[t],
                        ) by {
                            assert(validity@[t]);
                        }
                    }
                    Ok(inner)
                }
            },
            Shape::SStr => {
                let mut data: Vec<String> = Vec::new();
                let mut validity: Vec<bool> = Vec::new();
                let mut j: usize = 0;
                while j < n
                    invariant
                        predicate.wf(),
                        lhs.wf(),
                        rhs.wf(),
                        predicate.spec_shape() is SBool,
                        lhs.spec_shape() == Shape::SStr,
                        rhs.spec_shape() == Shape::SStr,
                        n == lhs.values().len(),
                        predicate.values().len() == n,
                        rhs.values().len() == n,
                        nullable == (predicate.spec_is_nullable() || lhs.spec_is_nullable()
                            || rhs.spec_is_nullable()),
                        !nullable ==> predicate.no_nulls() && lhs.no_nulls() && rhs.no_nulls(),
                        j <= n,
                        data@.len() == j,
                        validity@.len() == j,
                        forall|t: int|
                            0 <= t < j ==> ((#[trigger] validity@[t]) ==> if_row(
                                predicate.values()[t],
                                lhs.values()[t],
                                rhs.values()[t],
                            ) == Val::Str(data@[t]@)),
                        forall|t: int|
                            0 <= t < j ==> (!(#[trigger] validity@[t]) ==> if_row(
                                predicate.values()[t],
                                lhs.values()[t],
                                rhs.values()[t],
                            ) is Null),
                        !nullable ==> (forall|t: int| 0 <= t < j ==> #[trigger] validity@[t]),
                    decreases n - j,
                {
                    let (pv, pok) = predicate.bool_at(j);
                    let (v, ok) = if pv && pok {
                        lhs.str_at(j)
                    } else {
                        rhs.str_at(j)
                    };
                    data.push(v);
                    validity.push(ok);
                    j += 1;
                }
                let ghost gdata = data@;
                let inner = Column::Strs { data };
                proof {
                    assert(inner.spec_shape() == Shape::SStr);
                    assert(inner.values() =~= gdata.map_values(|s: String| Val::Str(s@)));
                    assert(inner.wf());
                }
                if nullable {
                    let c = Column::Nullable { inner: Box::new(inner), validity };
                    proof {
                        assert(c.wf());
                        assert(c.spec_shape() == inner.spec_shape());
                        assert forall|t: int| 0 <= t < n implies #[trigger] c.values()[t]
                            == if_row(
                            predicate.values()[t],
                            lhs.values()[t],
                            rhs.values()[t],
                        ) by {
                            assert(c.values()[t] == if validity@[t] {
                                inner.values()[t]
                            } else {
                                Val::Null
                            });
                        }
                    }
                    Ok(c)
                } else {
                    proof {
                        assert forall|t: int| 0 <= t < n implies #[trigger] inner.values()[t]
                            == if_row(
                            predicate.values()[t],
                            lhs.values()[t],
                            rhs.values()[t],
                        ) by {
                            assert(validity@[t]);
                        }
                    }
                    Ok(inner)
                }
            },
        }
    }
}

/// A well-formed integer-shaped column's element type is integer-backed.
proof fn lemma_if_ty_backed(c: Column)
    requires
        c.wf(),
        c.spec_shape() is SInt,
    ensures
        c.spec_shape()->SInt_0.spec_is_integer_backed(),
    decreases c,
{
    match c {
        Column::Const { inner, len } => lemma_if_ty_backed(*inner),
        Column::Nullable { inner, validity } => lemma_if_ty_backed(*inner),
        _ => {},
    }
}

} // verus!
