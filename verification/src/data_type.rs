//! The logical data types: a base kind (one per `TypeID`) plus an
//! orthogonal nullability flag. Two types are equal exactly when their
//! kind, their parameters (the datetime timezone) and their nullability
//! match.

use vstd::prelude::*;
use vstd::string::StringExecFns;

use crate::column::Column;
use crate::column::Shape;
use crate::column::Val;
use crate::error::ErrorCode;
use crate::error::ErrorKind;
use crate::type_id::TypeID;
use crate::tz::timezone_exists;
use crate::tz::tz_known;
use crate::value::DataValue;

verus! {

/// A point-in-time type stored on 32 unsigned bits, optionally tagged
/// with a timezone name used when rendering values as text.
#[derive(Debug)]
pub struct DateTime32Type {
    pub tz: Option<String>,
}

/// A duration type stored on 64 signed bits.
#[derive(Debug)]
pub struct IntervalType {}

#[derive(Debug)]
pub enum BaseType {
    Null,
    Boolean,
    UInt8,
    UInt16,
    UInt32,
    UInt64,
    Int8,
    Int16,
    Int32,
    Int64,
    Float32,
    Float64,
    String,
    Date16,
    Date32,
    DateTime32(DateTime32Type),
    Interval(IntervalType),
}

/// A logical type: a base kind plus whether rows may be null.
#[derive(Debug)]
pub struct DataType {
    pub base: BaseType,
    pub nullable: bool,
}

/// The timezone parameter as a mathematical value.
pub open spec fn tz_view(t: Option<String>) -> Option<Seq<char>> {
    match t {
        Option::None => Option::None,
        Option::Some(s) => Option::Some(s@),
    }
}

/// Equality of base types: same kind and same parameters.
pub open spec fn base_type_eq(a: BaseType, b: BaseType) -> bool {
    match a {
        BaseType::DateTime32(x) => match b {
            BaseType::DateTime32(y) => tz_view(x.tz) == tz_view(y.tz),
            _ => false,
        },
        _ => a == b,
    }
}

/// Equality of logical types: equal base and equal nullability.
pub open spec fn type_eq(a: DataType, b: DataType) -> bool {
    a.nullable == b.nullable && base_type_eq(a.base, b.base)
}


/// Equal base types have the same identity.
pub proof fn lemma_base_type_eq_id(a: BaseType, b: BaseType)
    requires
        base_type_eq(a, b),
    ensures
        a.spec_id() == b.spec_id(),
{
}

impl BaseType {
    pub open spec fn spec_id(&self) -> TypeID {
        match self {
            BaseType::Null => TypeID::Null,
            BaseType::Boolean => TypeID::Boolean,
            BaseType::UInt8 => TypeID::UInt8,
            BaseType::UInt16 => TypeID::UInt16,
            BaseType::UInt32 => TypeID::UInt32,
            BaseType::UInt64 => TypeID::UInt64,
            BaseType::Int8 => TypeID::Int8,
            BaseType::Int16 => TypeID::Int16,
            BaseType::Int32 => TypeID::Int32,
            BaseType::Int64 => TypeID::Int64,
            BaseType::Float32 => TypeID::Float32,
            BaseType::Float64 => TypeID::Float64,
            BaseType::String => TypeID::String,
            BaseType::Date16 => TypeID::Date16,
            BaseType::Date32 => TypeID::Date32,
            BaseType::DateTime32(_) => TypeID::DateTime32,
            BaseType::Interval(_) => TypeID::Interval,
        }
    }

    #[verifier::when_used_as_spec(spec_id)]
    pub fn id(&self) -> (r: TypeID)
        ensures
            r == self.spec_id(),
    {
        match self {
            BaseType::Null => TypeID::Null,
            BaseType::Boolean => TypeID::Boolean,
            BaseType::UInt8 => TypeID::UInt8,
            BaseType::UInt16 => TypeID::UInt16,
            BaseType::UInt32 => TypeID::UInt32,
            BaseType::UInt64 => TypeID::UInt64,
            BaseType::Int8 => TypeID::Int8,
            BaseType::Int16 => TypeID::Int16,
            BaseType::Int32 => TypeID::Int32,
            BaseType::Int64 => TypeID::Int64,
            BaseType::Float32 => TypeID::Float32,
            BaseType::Float64 => TypeID::Float64,
            BaseType::String => TypeID::String,
            BaseType::Date16 => TypeID::Date16,
            BaseType::Date32 => TypeID::Date32,
            BaseType::DateTime32(_) => TypeID::DateTime32,
            BaseType::Interval(_) => TypeID::Interval,
        }
    }

    /// A structural copy of the base type.
    pub fn duplicate(&self) -> (r: BaseType)
        ensures
            base_type_eq(r, *self),
            r.spec_id() == self.spec_id(),
    {
        match self {
            BaseType::Null => BaseType::Null,
            BaseType::Boolean => BaseType::Boolean,
            BaseType::UInt8 => BaseType::UInt8,
            BaseType::UInt16 => BaseType::UInt16,
            BaseType::UInt32 => BaseType::UInt32,
            BaseType::UInt64 => BaseType::UInt64,
            BaseType::Int8 => BaseType::Int8,
            BaseType::Int16 => BaseType::Int16,
            BaseType::Int32 => BaseType::Int32,
            BaseType::Int64 => BaseType::Int64,
            BaseType::Float32 => BaseType::Float32,
            BaseType::Float64 => BaseType::Float64,
            BaseType::String => BaseType::String,
            BaseType::Date16 => BaseType::Date16,
            BaseType::Date32 => BaseType::Date32,
            BaseType::DateTime32(t) => BaseType::DateTime32(
                DateTime32Type {
                    tz: match &t.tz {
                        Option::None => Option::None,
                        Option::Some(s) => Option::Some(s.clone()),
                    },
                },
            ),
            BaseType::Interval(_) => BaseType::Interval(IntervalType {  }),
        }
    }

    /// Equality test matching `base_type_eq`.
    pub fn equals(&self, other: &BaseType) -> (r: bool)
        ensures
            r == base_type_eq(*self, *other),
    {
        match self {
            BaseType::Null => matches!(other, BaseType::Null),
            BaseType::Boolean => matches!(other, BaseType::Boolean),
            BaseType::UInt8 => matches!(other, BaseType::UInt8),
            BaseType::UInt16 => matches!(other, BaseType::UInt16),
            BaseType::UInt32 => matches!(other, BaseType::UInt32),
            BaseType::UInt64 => matches!(other, BaseType::UInt64),
            BaseType::Int8 => matches!(other, BaseType::Int8),
            BaseType::Int16 => matches!(other, BaseType::Int16),
            BaseType::Int32 => matches!(other, BaseType::Int32),
            BaseType::Int64 => matches!(other, BaseType::Int64),
            BaseType::Float32 => matches!(other, BaseType::Float32),
            BaseType::Float64 => matches!(other, BaseType::Float64),
            BaseType::String => matches!(other, BaseType::String),
            BaseType::Date16 => matches!(other, BaseType::Date16),
            BaseType::Date32 => matches!(other, BaseType::Date32),
            BaseType::DateTime32(x) => {
                match other {
                    BaseType::DateTime32(y) => {
                        match (&x.tz, &y.tz) {
                            (Option::None, Option::None) => true,
                            (Option::Some(a), Option::Some(b)) => *a == *b,
                            _ => false,
                        }
                    },
                    _ => false,
                }
            },
            BaseType::Interval(_) => matches!(other, BaseType::Interval(_)),
        }
    }
}

impl DataType {
    /// A non-nullable type of the given base kind.
    pub fn new(base: BaseType) -> (r: DataType)
        ensures
            r.base == base,
            !r.nullable,
    {
        DataType { base, nullable: false }
    }

    /// The same type with rows allowed to be null.
    pub fn make_nullable(self) -> (r: DataType)
        ensures
            r.base == self.base,
            r.nullable,
    {
        DataType { base: self.base, nullable: true }
    }

    pub open spec fn spec_data_type_id(&self) -> TypeID {
        self.base.spec_id()
    }

    #[verifier::when_used_as_spec(spec_data_type_id)]
    pub fn data_type_id(&self) -> (r: TypeID)
        ensures
            r == self.base.spec_id(),
    {
        self.base.id()
    }

    pub open spec fn spec_is_nullable(&self) -> bool {
        self.nullable
    }

    #[verifier::when_used_as_spec(spec_is_nullable)]
    pub fn is_nullable(&self) -> (r: bool)
        ensures
            r == self.nullable,
    {
        self.nullable
    }

    /// The same type with the nullability wrapper stripped.
    pub fn remove_nullable(&self) -> (r: DataType)
        ensures
            base_type_eq(r.base, self.base),
            r.base.spec_id() == self.base.spec_id(),
            !r.nullable,
    {
        DataType { base: self.base.duplicate(), nullable: false }
    }

    /// A structural copy of the type.
    pub fn duplicate(&self) -> (r: DataType)
        ensures
            type_eq(r, *self),
            r.nullable == self.nullable,
            r.base.spec_id() == self.base.spec_id(),
    {
        DataType { base: self.base.duplicate(), nullable: self.nullable }
    }

    /// Equality test matching `type_eq`.
    pub fn equals(&self, other: &DataType) -> (r: bool)
        ensures
            r == type_eq(*self, *other),
    {
        self.nullable == other.nullable && self.base.equals(&other.base)
    }
}

impl DateTime32Type {
    pub fn create(tz: Option<String>) -> (r: Self)
        ensures
            r.tz == tz,
    {
        DateTime32Type { tz }
    }

    /// The full logical type built around this kind.
    pub fn arc(tz: Option<String>) -> (r: DataType)
        ensures
            r.base == BaseType::DateTime32(DateTime32Type { tz }),
            !r.nullable,
    {
        DataType { base: BaseType::DateTime32(DateTime32Type { tz }), nullable: false }
    }

    pub fn tz(&self) -> (r: Option<&String>)
        ensures
            match r {
                Option::Some(s) => self.tz == Option::Some(*s),
                Option::None => self.tz is None,
            },
    {
        self.tz.as_ref()
    }

    pub fn data_type_id(&self) -> (r: TypeID)
        ensures
            r == TypeID::DateTime32,
    {
        TypeID::DateTime32
    }

    pub fn name(&self) -> (r: &'static str)
        ensures
            r@ == "DateTime32"@,
    {
        "DateTime32"
    }

    pub fn aliases(&self) -> (r: &'static str)
        ensures
            r@ == "DateTime"@,
    {
        "DateTime"
    }

    pub fn default_value(&self) -> (r: DataValue)
        ensures
            r == DataValue::UInt64(0u64),
    {
        DataValue::UInt64(0)
    }

    /// A constant column of `size` logical repetitions of `data`, which must
    /// be readable as an unsigned integer; the value is taken modulo 2^32 as
    /// the physical cells are 32-bit.
    pub fn create_constant_column(&self, data: &DataValue, size: usize) -> (r: Result<
        Column,
        ErrorCode,
    >)
        ensures
            match r {
                Ok(c) => {
                    &&& c.wf()
                    &&& c.spec_is_const()
                    &&& c.spec_shape() == Shape::SInt(TypeID::DateTime32)
                    &&& c.values().len() == size
                    &&& forall|j: int|
                        0 <= j < size ==> c.values()[j] == Val::Int(
                            spec_value_as_u64(*data) % 0x1_0000_0000,
                        )
                    &&& spec_value_as_u64_ok(*data)
                },
                Err(e) => !spec_value_as_u64_ok(*data) && e.kind == ErrorKind::IllegalDataType,
            },
    {
        let value = match data.as_u64() {
            Ok(v) => v,
            Err(e) => {
                return Err(e);
            },
        };
        let cell = value % 0x1_0000_0000;
        proof {
            assert(value as int == spec_value_as_u64(*data));
            assert(cell as int == spec_value_as_u64(*data) % 0x1_0000_0000);
        }
        let mut cells: Vec<i128> = Vec::new();
        cells.push(cell as i128);
        let inner = Column::Ints { ty: TypeID::DateTime32, data: cells };
        proof {
            assert(inner.values().len() == 1);
            assert(inner.values()[0] == Val::Int(cell as int));
            assert(inner.wf());
            assert(inner.spec_shape() == Shape::SInt(TypeID::DateTime32));
        }
        let col = Column::Const { inner: Box::new(inner), len: size };
        proof {
            assert(col.spec_shape() == Shape::SInt(TypeID::DateTime32));
            assert(col.values() =~= Seq::new(
                size as nat,
                |j: int| Val::Int(spec_value_as_u64(*data) % 0x1_0000_0000),
            ));
        }
        Ok(col)
    }

    /// A plain column holding each scalar in order, every scalar readable as
    /// an unsigned integer, reduced modulo 2^32.
    pub fn create_column(&self, data: &Vec<DataValue>) -> (r: Result<Column, ErrorCode>)
        ensures
            match r {
                Ok(c) => {
                    &&& c.wf()
                    &&& c.spec_shape() == Shape::SInt(TypeID::DateTime32)
                    &&& c.values().len() == data@.len()
                    &&& forall|j: int|
                        0 <= j < data@.len() ==> c.values()[j] == Val::Int(
                            spec_value_as_u64(data@[j]) % 0x1_0000_0000,
                        )
                    &&& forall|j: int| 0 <= j < data@.len() ==> spec_value_as_u64_ok(#[trigger] data@[j])
                },
                Err(e) => (exists|j: int|
                    0 <= j < data@.len() && !spec_value_as_u64_ok(#[trigger] data@[j])) && e.kind
                    == ErrorKind::IllegalDataType,
            },
    {
        let mut cells: Vec<i128> = Vec::new();
        let n = data.len();
        let mut i: usize = 0;
        while i < n
            invariant
                n == data@.len(),
                i <= n,
                cells@.len() == i,
                forall|j: int| 0 <= j < i ==> spec_value_as_u64_ok(#[trigger] data@[j]),
                forall|j: int|
                    0 <= j < i ==> cells@[j] as int == spec_value_as_u64(#[trigger] data@[j])
                        % 0x1_0000_0000,
                forall|j: int|
                    0 <= j < i ==> TypeID::DateTime32.in_range(#[trigger] cells@[j] as int),
            decreases n - i,
        {
            let value = match data[i].as_u64() {
                Ok(v) => v,
                Err(e) => {
                    return Err(e);
                },
            };
            let cell = value % 0x1_0000_0000;
            cells.push(cell as i128);
            i += 1;
        }
        let col = Column::Ints { ty: TypeID::DateTime32, data: cells };
        proof {
            assert(col.spec_shape() == Shape::SInt(TypeID::DateTime32));
        }
        Ok(col)
    }

    /// Arrow-style extension metadata: the extension name, and the timezone
    /// when one is configured.
    pub fn custom_arrow_meta(&self) -> (r: Vec<(String, String)>)
        ensures
            r@.len() == (if self.tz is Some {
                2int
            } else {
                1int
            }),
            r@[0].0@ == "ARROW:extension:name"@,
            r@[0].1@ == "DateTime32"@,
            self.tz matches Some(t) ==> r@[1].0@ == "ARROW:extension:metadata"@ && r@[1].1@ == t@,
    {
        let mut meta: Vec<(String, String)> = Vec::new();
        meta.push(
            (String::from_str("ARROW:extension:name"), String::from_str("DateTime32")),
        );
        match &self.tz {
            Option::Some(t) => {
                meta.push((String::from_str("ARROW:extension:metadata"), t.clone()));
            },
            Option::None => {},
        }
        meta
    }

    /// The timezone the serializer renders in: the configured name, or UTC
    /// when none is set. Fails when the configured name is not in the zone
    /// database.
    pub fn serializer_timezone(&self) -> (r: Result<String, ErrorCode>)
        ensures
            match r {
                Ok(n) => tz_known(n@) && (match self.tz {
                    Option::Some(t) => n@ == t@,
                    Option::None => n@ == "UTC"@,
                }),
                Err(e) => e.kind == ErrorKind::IllegalDataType && (match self.tz {
                    Option::Some(t) => !tz_known(t@),
                    Option::None => false,
                }),
            },
    {
        let name = match &self.tz {
            Option::Some(t) => t.clone(),
            Option::None => String::from_str("UTC"),
        };
        if timezone_exists(name.as_str()) {
            Ok(name)
        } else {
            Err(
                ErrorCode::new(
                    ErrorKind::IllegalDataType,
                    String::from_str("Unknown timezone name"),
                ),
            )
        }
    }
}

impl IntervalType {
    pub fn data_type_id(&self) -> (r: TypeID)
        ensures
            r == TypeID::Interval,
    {
        TypeID::Interval
    }

    pub fn default_value(&self) -> (r: DataValue)
        ensures
            r == DataValue::Int64(0i64),
    {
        DataValue::Int64(0)
    }

    /// A constant column of `size` logical repetitions of `data`, which must
    /// be readable as a signed 64-bit integer.
    pub fn create_constant_column(&self, data: &DataValue, size: usize) -> (r: Result<
        Column,
        ErrorCode,
    >)
        ensures
            match r {
                Ok(c) => {
                    &&& c.wf()
                    &&& c.spec_is_const()
                    &&& c.spec_shape() == Shape::SInt(TypeID::Interval)
                    &&& c.values().len() == size
                    &&& forall|j: int|
                        0 <= j < size ==> c.values()[j] == Val::Int(spec_value_as_i64(*data))
                    &&& spec_value_as_i64_ok(*data)
                },
                Err(e) => !spec_value_as_i64_ok(*data) && e.kind == ErrorKind::IllegalDataType,
            },
    {
        let value = match data.as_i64() {
            Ok(v) => v,
            Err(e) => {
                return Err(e);
            },
        };
        let mut cells: Vec<i128> = Vec::new();
        cells.push(value as i128);
        let inner = Column::Ints { ty: TypeID::Interval, data: cells };
        proof {
            assert(inner.values().len() == 1);
            assert(inner.values()[0] == Val::Int(value as int));
            assert(inner.wf());
            assert(inner.spec_shape() == Shape::SInt(TypeID::Interval));
        }
        let col = Column::Const { inner: Box::new(inner), len: size };
        proof {
            assert(col.spec_shape() == Shape::SInt(TypeID::Interval));
            assert(col.values() =~= Seq::new(
                size as nat,
                |j: int| Val::Int(spec_value_as_i64(*data)),
            ));
        }
        Ok(col)
    }

    /// A plain column holding each scalar in order, every scalar readable as
    /// a signed 64-bit integer.
    pub fn create_column(&self, data: &Vec<DataValue>) -> (r: Result<Column, ErrorCode>)
        ensures
            match r {
                Ok(c) => {
                    &&& c.wf()
                    &&& c.spec_shape() == Shape::SInt(TypeID::Interval)
                    &&& c.values().len() == data@.len()
                    &&& forall|j: int|
                        0 <= j < data@.len() ==> c.values()[j] == Val::Int(
                            spec_value_as_i64(data@[j]),
                        )
                    &&& forall|j: int| 0 <= j < data@.len() ==> spec_value_as_i64_ok(#[trigger] data@[j])
                },
                Err(e) => (exists|j: int|
                    0 <= j < data@.len() && !spec_value_as_i64_ok(#[trigger] data@[j])) && e.kind
                    == ErrorKind::IllegalDataType,
            },
    {
        let mut cells: Vec<i128> = Vec::new();
        let n = data.len();
        let mut i: usize = 0;
        while i < n
            invariant
                n == data@.len(),
                i <= n,
                cells@.len() == i,
                forall|j: int| 0 <= j < i ==> spec_value_as_i64_ok(#[trigger] data@[j]),
                forall|j: int|
                    0 <= j < i ==> cells@[j] as int == spec_value_as_i64(#[trigger] data@[j]),
                forall|j: int|
                    0 <= j < i ==> TypeID::Interval.in_range(#[trigger] cells@[j] as int),
            decreases n - i,
        {
            let value = match data[i].as_i64() {
                Ok(v) => v,
                Err(e) => {
                    return Err(e);
                },
            };
            cells.push(value as i128);
            i += 1;
        }
        let col = Column::Ints { ty: TypeID::Interval, data: cells };
        proof {
            assert(col.spec_shape() == Shape::SInt(TypeID::Interval));
        }
        Ok(col)
    }
}


/// The base type of an integer type identity.
pub fn base_of_integer_id(t: TypeID) -> (r: BaseType)
    requires
        t.spec_is_integer(),
    ensures
        r.spec_id() == t,
{
    match t {
        TypeID::UInt8 => BaseType::UInt8,
        TypeID::UInt16 => BaseType::UInt16,
        TypeID::UInt32 => BaseType::UInt32,
        TypeID::UInt64 => BaseType::UInt64,
        TypeID::Int8 => BaseType::Int8,
        TypeID::Int16 => BaseType::Int16,
        TypeID::Int32 => BaseType::Int32,
        TypeID::Int64 => BaseType::Int64,
        _ => {
            proof {
                assert(false);
            }
            BaseType::Int64
        },
    }
}

/// Whether a scalar can be read as an unsigned 64-bit integer.
pub open spec fn spec_value_as_u64_ok(v: DataValue) -> bool {
    match v {
        DataValue::UInt64(_) => true,
        DataValue::Int64(x) => x >= 0,
        _ => false,
    }
}

/// The unsigned reading of a scalar (meaningful when `spec_value_as_u64_ok`).
pub open spec fn spec_value_as_u64(v: DataValue) -> int {
    match v {
        DataValue::UInt64(x) => x as int,
        DataValue::Int64(x) => x as int,
        _ => 0,
    }
}

/// Whether a scalar can be read as a signed 64-bit integer.
pub open spec fn spec_value_as_i64_ok(v: DataValue) -> bool {
    match v {
        DataValue::Int64(_) => true,
        DataValue::UInt64(x) => x <= i64::MAX,
        _ => false,
    }
}

/// The signed reading of a scalar (meaningful when `spec_value_as_i64_ok`).
pub open spec fn spec_value_as_i64(v: DataValue) -> int {
    match v {
        DataValue::Int64(x) => x as int,
        DataValue::UInt64(x) => x as int,
        _ => 0,
    }
}

} // verus!
