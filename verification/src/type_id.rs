//! The identity of every logical data type. `TypeID` is stable and drives
//! all downstream dispatch: kernel selection, key-width selection and the
//! coercion table all switch on it.

use vstd::prelude::*;

verus! {

#[derive(Clone, Copy, PartialEq, Eq, Structural, Debug)]
pub enum TypeID {
    Null,
    Boolean,
    UInt8,
    UInt16,
    UInt32,
    UInt64,
    Int8,
    Int16,
    Int32,
    Int64,
    Float32,
    Float64,
    String,
    /// A date stored as an unsigned 16-bit day number.
    Date16,
    /// A date stored as a signed 32-bit day number.
    Date32,
    /// A point in time stored as an unsigned 32-bit second count.
    DateTime32,
    /// A duration stored as a signed 64-bit count.
    Interval,
}

impl TypeID {
    pub open spec fn spec_is_signed_integer(self) -> bool {
        self == TypeID::Int8 || self == TypeID::Int16 || self == TypeID::Int32
            || self == TypeID::Int64
    }

    #[verifier::when_used_as_spec(spec_is_signed_integer)]
    pub fn is_signed_integer(self) -> (r: bool)
        ensures
            r == self.spec_is_signed_integer(),
    {
        matches!(self, TypeID::Int8 | TypeID::Int16 | TypeID::Int32 | TypeID::Int64)
    }

    pub open spec fn spec_is_unsigned_integer(self) -> bool {
        self == TypeID::UInt8 || self == TypeID::UInt16 || self == TypeID::UInt32
            || self == TypeID::UInt64
    }

    #[verifier::when_used_as_spec(spec_is_unsigned_integer)]
    pub fn is_unsigned_integer(self) -> (r: bool)
        ensures
            r == self.spec_is_unsigned_integer(),
    {
        matches!(self, TypeID::UInt8 | TypeID::UInt16 | TypeID::UInt32 | TypeID::UInt64)
    }

    pub open spec fn spec_is_integer(self) -> bool {
        self.spec_is_signed_integer() || self.spec_is_unsigned_integer()
    }

    #[verifier::when_used_as_spec(spec_is_integer)]
    pub fn is_integer(self) -> (r: bool)
        ensures
            r == self.spec_is_integer(),
    {
        self.is_signed_integer() || self.is_unsigned_integer()
    }

    pub open spec fn spec_is_float(self) -> bool {
        self == TypeID::Float32 || self == TypeID::Float64
    }

    #[verifier::when_used_as_spec(spec_is_float)]
    pub fn is_float(self) -> (r: bool)
        ensures
            r == self.spec_is_float(),
    {
        matches!(self, TypeID::Float32 | TypeID::Float64)
    }

    pub open spec fn spec_is_numeric(self) -> bool {
        self.spec_is_integer() || self.spec_is_float()
    }

    #[verifier::when_used_as_spec(spec_is_numeric)]
    pub fn is_numeric(self) -> (r: bool)
        ensures
            r == self.spec_is_numeric(),
    {
        self.is_integer() || self.is_float()
    }

    pub open spec fn spec_is_date_or_date_time(self) -> bool {
        self == TypeID::Date16 || self == TypeID::Date32 || self == TypeID::DateTime32
    }

    #[verifier::when_used_as_spec(spec_is_date_or_date_time)]
    pub fn is_date_or_date_time(self) -> (r: bool)
        ensures
            r == self.spec_is_date_or_date_time(),
    {
        matches!(self, TypeID::Date16 | TypeID::Date32 | TypeID::DateTime32)
    }

    pub open spec fn spec_is_interval(self) -> bool {
        self == TypeID::Interval
    }

    #[verifier::when_used_as_spec(spec_is_interval)]
    pub fn is_interval(self) -> (r: bool)
        ensures
            r == self.spec_is_interval(),
    {
        matches!(self, TypeID::Interval)
    }

    /// True for every type whose physical cells are integers: the eight
    /// integer widths plus the date, time and interval types layered on them.
    pub open spec fn spec_is_integer_backed(self) -> bool {
        self.spec_is_integer() || self.spec_is_date_or_date_time() || self.spec_is_interval()
    }

    #[verifier::when_used_as_spec(spec_is_integer_backed)]
    pub fn is_integer_backed(self) -> (r: bool)
        ensures
            r == self.spec_is_integer_backed(),
    {
        self.is_integer() || self.is_date_or_date_time() || self.is_interval()
    }

    /// The fixed byte width of the physical representation; 0 for
    /// variable-width or valueless types (String, Null).
    pub open spec fn spec_fixed_byte_width(self) -> int {
        match self {
            TypeID::Boolean => 1,
            TypeID::UInt8 => 1,
            TypeID::UInt16 => 2,
            TypeID::UInt32 => 4,
            TypeID::UInt64 => 8,
            TypeID::Int8 => 1,
            TypeID::Int16 => 2,
            TypeID::Int32 => 4,
            TypeID::Int64 => 8,
            TypeID::Float32 => 4,
            TypeID::Float64 => 8,
            TypeID::Date16 => 2,
            TypeID::Date32 => 4,
            TypeID::DateTime32 => 4,
            TypeID::Interval => 8,
            TypeID::String => 0,
            TypeID::Null => 0,
        }
    }

    pub fn fixed_byte_width(self) -> (r: usize)
        ensures
            r == self.spec_fixed_byte_width(),
    {
        match self {
            TypeID::Boolean => 1,
            TypeID::UInt8 => 1,
            TypeID::UInt16 => 2,
            TypeID::UInt32 => 4,
            TypeID::UInt64 => 8,
            TypeID::Int8 => 1,
            TypeID::Int16 => 2,
            TypeID::Int32 => 4,
            TypeID::Int64 => 8,
            TypeID::Float32 => 4,
            TypeID::Float64 => 8,
            TypeID::Date16 => 2,
            TypeID::Date32 => 4,
            TypeID::DateTime32 => 4,
            TypeID::Interval => 8,
            TypeID::String => 0,
            TypeID::Null => 0,
        }
    }

    /// Smallest value an integer-backed cell of this type may hold.
    pub open spec fn int_min(self) -> int {
        match self {
            TypeID::UInt8 => 0,
            TypeID::UInt16 => 0,
            TypeID::UInt32 => 0,
            TypeID::UInt64 => 0,
            TypeID::Int8 => -0x80,
            TypeID::Int16 => -0x8000,
            TypeID::Int32 => -0x8000_0000,
            TypeID::Int64 => -0x8000_0000_0000_0000,
            TypeID::Date16 => 0,
            TypeID::Date32 => -0x8000_0000,
            TypeID::DateTime32 => 0,
            TypeID::Interval => -0x8000_0000_0000_0000,
            _ => 0,
        }
    }

    /// Largest value an integer-backed cell of this type may hold.
    pub open spec fn int_max(self) -> int {
        match self {
            TypeID::UInt8 => 0xff,
            TypeID::UInt16 => 0xffff,
            TypeID::UInt32 => 0xffff_ffff,
            TypeID::UInt64 => 0xffff_ffff_ffff_ffff,
            TypeID::Int8 => 0x7f,
            TypeID::Int16 => 0x7fff,
            TypeID::Int32 => 0x7fff_ffff,
            TypeID::Int64 => 0x7fff_ffff_ffff_ffff,
            TypeID::Date16 => 0xffff,
            TypeID::Date32 => 0x7fff_ffff,
            TypeID::DateTime32 => 0xffff_ffff,
            TypeID::Interval => 0x7fff_ffff_ffff_ffff,
            _ => 0,
        }
    }

    /// Whether `v` is representable in a physical cell of this type.
    pub open spec fn in_range(self, v: int) -> bool {
        self.int_min() <= v && v <= self.int_max()
    }

    /// The printable name of the type, as it appears in error messages.
    pub open spec fn spec_name(self) -> Seq<char> {
        match self {
            TypeID::Null => "Null"@,
            TypeID::Boolean => "Boolean"@,
            TypeID::UInt8 => "UInt8"@,
            TypeID::UInt16 => "UInt16"@,
            TypeID::UInt32 => "UInt32"@,
            TypeID::UInt64 => "UInt64"@,
            TypeID::Int8 => "Int8"@,
            TypeID::Int16 => "Int16"@,
            TypeID::Int32 => "Int32"@,
            TypeID::Int64 => "Int64"@,
            TypeID::Float32 => "Float32"@,
            TypeID::Float64 => "Float64"@,
            TypeID::String => "String"@,
            TypeID::Date16 => "Date16"@,
            TypeID::Date32 => "Date32"@,
            TypeID::DateTime32 => "DateTime32"@,
            TypeID::Interval => "Interval"@,
        }
    }

    pub fn name(self) -> (r: &'static str)
        ensures
            r@ == self.spec_name(),
    {
        match self {
            TypeID::Null => "Null",
            TypeID::Boolean => "Boolean",
            TypeID::UInt8 => "UInt8",
            TypeID::UInt16 => "UInt16",
            TypeID::UInt32 => "UInt32",
            TypeID::UInt64 => "UInt64",
            TypeID::Int8 => "Int8",
            TypeID::Int16 => "Int16",
            TypeID::Int32 => "Int32",
            TypeID::Int64 => "Int64",
            TypeID::Float32 => "Float32",
            TypeID::Float64 => "Float64",
            TypeID::String => "String",
            TypeID::Date16 => "Date16",
            TypeID::Date32 => "Date32",
            TypeID::DateTime32 => "DateTime32",
            TypeID::Interval => "Interval",
        }
    }
}

} // verus!
