//! Binary arithmetic: operand type resolution against the coercion table,
//! the date/interval special cases, null propagation, and the monotonicity
//! combination rules for `+` and `-`.

use vstd::prelude::*;
use vstd::string::StringExecFns;

use crate::binary::apply_op;
use crate::binary::DataValueBinaryOperator;
use crate::binary::ScalarBinaryExpression;
use crate::coercion::add_result;
use crate::coercion::minus_result;
use crate::coercion::spec_add_result;
use crate::coercion::spec_minus_result;
use crate::column::lemma_int_shape_vals;
use crate::column::lemma_wf_base_or_const_no_nulls;
use crate::column::Column;
use crate::column::Shape;
use crate::column::Val;
use crate::data_type::base_of_integer_id;
use crate::data_type::type_eq;
use crate::data_type::BaseType;
use crate::data_type::DataType;
use crate::error::ErrorCode;
use crate::error::ErrorKind;
use crate::factory::ArithmeticDescription;
use crate::factory::ArithmeticKind;
use crate::factory::FunctionFeatures;
use crate::monotonicity::minus_monotonicity;
use crate::monotonicity::plus_monotonicity;
use crate::monotonicity::Monotonicity;
use crate::type_id::TypeID;

verus! {

/// The per-row result of a null-propagating integer kernel: null when
/// either input row is null, the wrapped exact result otherwise.
pub open spec fn arith_row(
    op: DataValueBinaryOperator,
    result_id: TypeID,
    lv: Val,
    rv: Val,
) -> Val {
    if lv is Int && rv is Int {
        Val::Int(apply_op(op, result_id, lv->Int_0, rv->Int_0))
    } else {
        Val::Null
    }
}

/// A resolved arithmetic function: the operator and the declared result
/// type every row is produced in.
#[derive(Debug)]
pub struct BinaryArithmeticFunction {
    pub op: DataValueBinaryOperator,
    pub result_type: DataType,
}

impl BinaryArithmeticFunction {
    pub fn try_create_func(op: DataValueBinaryOperator, result_type: DataType) -> (r: Result<
        BinaryArithmeticFunction,
        ErrorCode,
    >)
        ensures
            match r {
                Ok(f) => f.op == op && f.result_type == result_type,
                Err(_) => false,
            },
    {
        Ok(BinaryArithmeticFunction { op, result_type })
    }

    pub fn return_type(&self) -> (r: DataType)
        ensures
            type_eq(r, self.result_type),
            r.base.spec_id() == self.result_type.base.spec_id(),
            r.nullable == self.result_type.nullable,
    {
        self.result_type.duplicate()
    }

    /// Evaluates the kernel column-at-a-time with automatic null
    /// propagation: output row `j` is `arith_row` of the input rows `j`.
    pub fn eval(&self, l: &Column, r: &Column) -> (res: Column)
        requires
            self.op == DataValueBinaryOperator::Plus || self.op == DataValueBinaryOperator::Minus,
            self.result_type.base.spec_id().spec_is_integer_backed(),
            l.wf(),
            r.wf(),
            l.spec_shape() is SInt,
            r.spec_shape() is SInt,
            l.values().len() == r.values().len(),
        ensures
            res.wf(),
            res.spec_shape() == Shape::SInt(self.result_type.base.spec_id()),
            res.values().len() == l.values().len(),
            res.spec_is_nullable() == (l.spec_is_nullable() || r.spec_is_nullable()),
            forall|j: int|
                0 <= j < res.values().len() ==> #[trigger] res.values()[j] == arith_row(
                    self.op,
                    self.result_type.base.spec_id(),
                    l.values()[j],
                    r.values()[j],
                ),
    {
        proof {
            lemma_int_shape_vals(*l);
            lemma_int_shape_vals(*r);
        }
        let expr = ScalarBinaryExpression::new(self.op, self.result_type.data_type_id());
        if !l.is_nullable() && !r.is_nullable() {
            proof {
                lemma_wf_base_or_const_no_nulls(*l);
                lemma_wf_base_or_const_no_nulls(*r);
            }
            let res = expr.eval(l, r);
            proof {
                assert forall|j: int| 0 <= j < res.values().len() implies #[trigger] res.values()[j]
                    == arith_row(
                    self.op,
                    self.result_type.base.spec_id(),
                    l.values()[j],
                    r.values()[j],
                ) by {
                    assert(!(l.values()[j] is Null));
                    assert(!(r.values()[j] is Null));
                }
            }
            res
        } else {
            let n = l.len();
            let mut validity: Vec<bool> = Vec::new();
            let mut j: usize = 0;
            while j < n
                invariant
                    l.wf(),
                    r.wf(),
                    n == l.values().len(),
                    l.values().len() == r.values().len(),
                    j <= n,
                    validity@.len() == j,
                    forall|t: int|
                        0 <= t < j ==> #[trigger] validity@[t] == (!(l.values()[t] is Null) && !(
                        r.values()[t] is Null)),
                decreases n - j,
            {
                let v = l.valid_at(j) && r.valid_at(j);
                validity.push(v);
                j += 1;
            }
            let ls = l.strip_nullable();
            let rs = r.strip_nullable();
            let plain = expr.eval(ls, rs);
            let ghost gvalidity = validity@;
            let res = Column::Nullable { inner: Box::new(plain), validity };
            proof {
                assert(res.wf());
                assert(res.spec_shape() == plain.spec_shape());
                assert forall|j: int| 0 <= j < res.values().len() implies #[trigger] res.values()[j]
                    == arith_row(
                    self.op,
                    self.result_type.base.spec_id(),
                    l.values()[j],
                    r.values()[j],
                ) by {
                    if gvalidity[j] {
                        assert(res.values()[j] == plain.values()[j]);
                        assert(ls.values()[j] == l.values()[j]);
                        assert(rs.values()[j] == r.values()[j]);
                        assert(l.values()[j] is Int);
                        assert(r.values()[j] is Int);
                    } else {
                        assert(res.values()[j] is Null);
                    }
                }
            }
            res
        }
    }
}

/// Whether `+` is defined for a pair of operand type identities: a date
/// side pairs with an integer, otherwise both sides must be numeric.
pub open spec fn plus_supported(lt: TypeID, rt: TypeID) -> bool {
    &&& !lt.spec_is_interval()
    &&& !rt.spec_is_interval()
    &&& if lt.spec_is_date_or_date_time() {
        !rt.spec_is_date_or_date_time() && rt.spec_is_integer()
    } else if rt.spec_is_date_or_date_time() {
        lt.spec_is_integer()
    } else {
        lt.spec_is_numeric() && rt.spec_is_numeric()
    }
}

/// The result type identity of `+` on a supported pair: the date side if
/// there is one, the double-width float when a floating-point side is
/// involved (such a result has no integer kernel here), else the coercion
/// table's promotion.
pub open spec fn plus_result_id(lt: TypeID, rt: TypeID) -> TypeID {
    if lt.spec_is_date_or_date_time() {
        lt
    } else if rt.spec_is_date_or_date_time() {
        rt
    } else if lt.spec_is_float() || rt.spec_is_float() {
        TypeID::Float64
    } else {
        spec_add_result(lt, rt)
    }
}

/// Whether `-` is defined for a pair of operand type identities; unlike
/// `+`, two dates may be subtracted.
pub open spec fn minus_supported(lt: TypeID, rt: TypeID) -> bool {
    &&& !lt.spec_is_interval()
    &&& !rt.spec_is_interval()
    &&& if lt.spec_is_date_or_date_time() {
        rt.spec_is_date_or_date_time() || rt.spec_is_integer()
    } else if rt.spec_is_date_or_date_time() {
        lt.spec_is_integer()
    } else {
        lt.spec_is_numeric() && rt.spec_is_numeric()
    }
}

/// The result type identity of `-` on a supported pair: a day-count for
/// date minus date, the date side if there is one, else the coercion
/// table's signed promotion.
pub open spec fn minus_result_id(lt: TypeID, rt: TypeID) -> TypeID {
    if lt.spec_is_date_or_date_time() {
        if rt.spec_is_date_or_date_time() {
            TypeID::Int32
        } else {
            lt
        }
    } else if rt.spec_is_date_or_date_time() {
        rt
    } else if lt.spec_is_float() || rt.spec_is_float() {
        TypeID::Float64
    } else {
        spec_minus_result(lt, rt)
    }
}

/// The text of an unsupported-combination error: both type identities
/// and the operator, so a query author can correct the expression.
pub open spec fn unsupported_arithmetic_message(
    op: DataValueBinaryOperator,
    lt: TypeID,
    rt: TypeID,
) -> Seq<char> {
    "DataValue Error: Unsupported arithmetic ("@ + lt.spec_name() + ") "@ + op.spec_symbol()
        + " ("@ + rt.spec_name() + ")"@
}

/// The unsupported-combination error, naming both types and the operator.
fn unsupported_arithmetic_error(
    op: DataValueBinaryOperator,
    lt: TypeID,
    rt: TypeID,
) -> (e: ErrorCode)
    ensures
        e.kind == ErrorKind::BadDataValueType,
        e.message@ == unsupported_arithmetic_message(op, lt, rt),
{
    let mut m = String::from_str("DataValue Error: Unsupported arithmetic (");
    m.append(lt.name());
    m.append(") ");
    m.append(op.symbol());
    m.append(" (");
    m.append(rt.name());
    m.append(")");
    proof {
        assert(m@ =~= unsupported_arithmetic_message(op, lt, rt));
    }
    ErrorCode::new(ErrorKind::BadDataValueType, m)
}

pub struct ArithmeticPlusFunction;

impl ArithmeticPlusFunction {
    /// Resolves `+` for two argument types, per the binary arithmetic
    /// type-resolution algorithm: nullability is ignored for dispatch,
    /// intervals are explicitly unsupported, a date side fixes the result
    /// type, and two integers consult the coercion table.
    pub fn try_create_func(_display_name: &str, args: &[DataType]) -> (r: Result<
        BinaryArithmeticFunction,
        ErrorCode,
    >)
        requires
            args@.len() == 2,
        ensures
            ({
                let lt = args@[0].base.spec_id();
                let rt = args@[1].base.spec_id();
                match r {
                    Ok(f) => {
                        &&& plus_supported(lt, rt)
                        &&& f.op == DataValueBinaryOperator::Plus
                        &&& f.result_type.base.spec_id() == plus_result_id(lt, rt)
                        &&& (lt.spec_is_date_or_date_time() ==> type_eq(f.result_type, args@[0]))
                        &&& (!lt.spec_is_date_or_date_time() && rt.spec_is_date_or_date_time()
                            ==> type_eq(f.result_type, args@[1]))
                        &&& (!lt.spec_is_date_or_date_time() && !rt.spec_is_date_or_date_time()
                            ==> !f.result_type.nullable)
                    },
                    Err(e) => !plus_supported(lt, rt) && e.kind == ErrorKind::BadDataValueType
                        && e.message@ == unsupported_arithmetic_message(
                        DataValueBinaryOperator::Plus,
                        lt,
                        rt,
                    ),
                }
            }),
    {
        let op = DataValueBinaryOperator::Plus;
        let left_type = args[0].remove_nullable().data_type_id();
        let right_type = args[1].remove_nullable().data_type_id();
        if left_type.is_interval() || right_type.is_interval() {
            return Err(unsupported_arithmetic_error(op, left_type, right_type));
        }
        if left_type.is_date_or_date_time() {
            if !right_type.is_date_or_date_time() && right_type.is_integer() {
                return BinaryArithmeticFunction::try_create_func(op, args[0].duplicate());
            }
            return Err(unsupported_arithmetic_error(op, left_type, right_type));
        }
        if right_type.is_date_or_date_time() {
            if left_type.is_integer() {
                return BinaryArithmeticFunction::try_create_func(op, args[1].duplicate());
            }
            return Err(unsupported_arithmetic_error(op, left_type, right_type));
        }
        if left_type.is_float() || right_type.is_float() {
            if left_type.is_numeric() && right_type.is_numeric() {
                let result_type = DataType::new(BaseType::Float64);
                return BinaryArithmeticFunction::try_create_func(op, result_type);
            }
            return Err(unsupported_arithmetic_error(op, left_type, right_type));
        }
        if left_type.is_integer() && right_type.is_integer() {
            let result_id = add_result(left_type, right_type);
            let result_type = DataType::new(base_of_integer_id(result_id));
            return BinaryArithmeticFunction::try_create_func(op, result_type);
        }
        Err(unsupported_arithmetic_error(op, left_type, right_type))
    }

    /// The registry entry: a deterministic, monotonicity-propagating
    /// operator of two arguments.
    pub fn desc() -> (r: ArithmeticDescription)
        ensures
            r.kind == ArithmeticKind::Plus,
            r.features.is_deterministic,
            r.features.maybe_monotonic,
            r.features.num_arguments == 2,
    {
        ArithmeticDescription::creator(ArithmeticKind::Plus).features(
            FunctionFeatures::default().deterministic().monotonicity().num_arguments(
                2,
            ),
        )
    }

    /// The combination rule for the monotonicity of `f + g`.
    pub fn get_monotonicity(args: &[Monotonicity]) -> (r: Result<Monotonicity, ErrorCode>)
        requires
            args@.len() == 2,
        ensures
            match r {
                Ok(m) => m == plus_monotonicity(args@[0], args@[1]),
                Err(_) => false,
            },
    {
        let f_x = args[0];
        let g_x = args[1];
        if !f_x.is_monotonic || !g_x.is_monotonic {
            return Ok(Monotonicity::default());
        }
        if f_x.is_constant {
            return Ok(Monotonicity::create(g_x.is_monotonic, g_x.is_positive, g_x.is_constant));
        }
        if g_x.is_constant {
            return Ok(Monotonicity::create(f_x.is_monotonic, f_x.is_positive, f_x.is_constant));
        }
        if f_x.is_positive != g_x.is_positive {
            return Ok(Monotonicity::default());
        }
        Ok(Monotonicity::create(true, f_x.is_positive, false))
    }
}

pub struct ArithmeticMinusFunction;

impl ArithmeticMinusFunction {
    /// Resolves `-` for two argument types; as for `+`, except that a date
    /// may be subtracted from a date, yielding a signed day count.
    pub fn try_create_func(_display_name: &str, args: &[DataType]) -> (r: Result<
        BinaryArithmeticFunction,
        ErrorCode,
    >)
        requires
            args@.len() == 2,
        ensures
            ({
                let lt = args@[0].base.spec_id();
                let rt = args@[1].base.spec_id();
                match r {
                    Ok(f) => {
                        &&& minus_supported(lt, rt)
                        &&& f.op == DataValueBinaryOperator::Minus
                        &&& f.result_type.base.spec_id() == minus_result_id(lt, rt)
                        &&& (lt.spec_is_date_or_date_time() && !rt.spec_is_date_or_date_time()
                            ==> type_eq(f.result_type, args@[0]))
                        &&& (!lt.spec_is_date_or_date_time() && rt.spec_is_date_or_date_time()
                            ==> type_eq(f.result_type, args@[1]))
                        &&& (lt.spec_is_date_or_date_time() && rt.spec_is_date_or_date_time()
                            ==> !f.result_type.nullable)
                        &&& (!lt.spec_is_date_or_date_time() && !rt.spec_is_date_or_date_time()
                            ==> !f.result_type.nullable)
                    },
                    Err(e) => !minus_supported(lt, rt) && e.kind == ErrorKind::BadDataValueType
                        && e.message@ == unsupported_arithmetic_message(
                        DataValueBinaryOperator::Minus,
                        lt,
                        rt,
                    ),
                }
            }),
    {
        let op = DataValueBinaryOperator::Minus;
        let left_type = args[0].remove_nullable().data_type_id();
        let right_type = args[1].remove_nullable().data_type_id();
        if left_type.is_interval() || right_type.is_interval() {
            return Err(unsupported_arithmetic_error(op, left_type, right_type));
        }
        if left_type.is_date_or_date_time() {
            if right_type.is_date_or_date_time() {
                let result_type = DataType::new(BaseType::Int32);
                return BinaryArithmeticFunction::try_create_func(op, result_type);
            }
            if right_type.is_integer() {
                return BinaryArithmeticFunction::try_create_func(op, args[0].duplicate());
            }
            return Err(unsupported_arithmetic_error(op, left_type, right_type));
        }
        if right_type.is_date_or_date_time() {
            if left_type.is_integer() {
                return BinaryArithmeticFunction::try_create_func(op, args[1].duplicate());
            }
            return Err(unsupported_arithmetic_error(op, left_type, right_type));
        }
        if left_type.is_float() || right_type.is_float() {
            if left_type.is_numeric() && right_type.is_numeric() {
                let result_type = DataType::new(BaseType::Float64);
                return BinaryArithmeticFunction::try_create_func(op, result_type);
            }
            return Err(unsupported_arithmetic_error(op, left_type, right_type));
        }
        if left_type.is_integer() && right_type.is_integer() {
            let result_id = minus_result(left_type, right_type);
            let result_type = DataType::new(base_of_integer_id(result_id));
            return BinaryArithmeticFunction::try_create_func(op, result_type);
        }
        Err(unsupported_arithmetic_error(op, left_type, right_type))
    }

    /// The registry entry: a deterministic, monotonicity-propagating
    /// operator of two arguments.
    pub fn desc() -> (r: ArithmeticDescription)
        ensures
            r.kind == ArithmeticKind::Minus,
            r.features.is_deterministic,
            r.features.maybe_monotonic,
            r.features.num_arguments == 2,
    {
        ArithmeticDescription::creator(ArithmeticKind::Minus).features(
            FunctionFeatures::default().deterministic().monotonicity().num_arguments(
                2,
            ),
        )
    }

    /// The combination rule for the monotonicity of `f - g`.
    pub fn get_monotonicity(args: &[Monotonicity]) -> (r: Result<Monotonicity, ErrorCode>)
        requires
            args@.len() == 2,
        ensures
            match r {
                Ok(m) => m == minus_monotonicity(args@[0], args@[1]),
                Err(_) => false,
            },
    {
        let f_x = args[0];
        let g_x = args[1];
        if f_x.is_constant {
            return Ok(
                Monotonicity::create(
                    g_x.is_monotonic || g_x.is_constant,
                    !g_x.is_positive,
                    g_x.is_constant,
                ),
            );
        }
        if g_x.is_constant {
            return Ok(Monotonicity::create(f_x.is_monotonic, f_x.is_positive, f_x.is_constant));
        }
        if !f_x.is_monotonic || !g_x.is_monotonic {
            return Ok(Monotonicity::default());
        }
        if f_x.is_positive == g_x.is_positive {
            return Ok(Monotonicity::default());
        }
        Ok(Monotonicity::create(true, f_x.is_positive, false))
    }
}

/// Whether `/` is defined for a pair of operand type identities. Division
/// always produces a double-width floating-point result, whose rows this
/// crate does not evaluate.
pub open spec fn div_supported(lt: TypeID, rt: TypeID) -> bool {
    lt.spec_is_numeric() && rt.spec_is_numeric()
}

pub struct ArithmeticDivFunction;

impl ArithmeticDivFunction {
    /// The monotonicity of `f / g` depends on the sign of the operand
    /// ranges, which these facts do not carry; claiming nothing is always
    /// safe for the optimizer, claiming monotonicity wrongly never is.
    pub fn get_monotonicity(args: &[Monotonicity]) -> (r: Result<Monotonicity, ErrorCode>)
        requires
            args@.len() == 2,
        ensures
            match r {
                Ok(m) => m == crate::monotonicity::unknown_monotonicity(),
                Err(_) => false,
            },
    {
        Ok(Monotonicity::default())
    }

    /// The registry entry: a deterministic, monotonicity-propagating
    /// operator of two arguments.
    pub fn desc() -> (r: ArithmeticDescription)
        ensures
            r.kind == ArithmeticKind::Div,
            r.features.is_deterministic,
            r.features.maybe_monotonic,
            r.features.num_arguments == 2,
    {
        ArithmeticDescription::creator(ArithmeticKind::Div).features(
            FunctionFeatures::default().deterministic().monotonicity().num_arguments(
                2,
            ),
        )
    }

    /// Resolves `/` for two argument types: any two numerics divide into a
    /// double-width floating-point result type.
    pub fn try_create_func(_display_name: &str, args: &[DataType]) -> (r: Result<
        BinaryArithmeticFunction,
        ErrorCode,
    >)
        requires
            args@.len() == 2,
        ensures
            ({
                let lt = args@[0].base.spec_id();
                let rt = args@[1].base.spec_id();
                match r {
                    Ok(f) => {
                        &&& div_supported(lt, rt)
                        &&& f.op == DataValueBinaryOperator::Div
                        &&& f.result_type.base == BaseType::Float64
                        &&& !f.result_type.nullable
                    },
                    Err(e) => !div_supported(lt, rt) && e.kind == ErrorKind::BadDataValueType
                        && e.message@ == unsupported_arithmetic_message(
                        DataValueBinaryOperator::Div,
                        lt,
                        rt,
                    ),
                }
            }),
    {
        let op = DataValueBinaryOperator::Div;
        let left_type = args[0].remove_nullable().data_type_id();
        let right_type = args[1].remove_nullable().data_type_id();
        if left_type.is_numeric() && right_type.is_numeric() {
            let result_type = DataType::new(BaseType::Float64);
            return BinaryArithmeticFunction::try_create_func(op, result_type);
        }
        Err(unsupported_arithmetic_error(op, left_type, right_type))
    }
}

} // verus!
