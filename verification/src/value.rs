//! A single typed scalar, used for constant folding, default values and
//! building columns from literals.

use vstd::prelude::*;
use vstd::string::StringExecFns;

use crate::error::ErrorCode;
use crate::error::ErrorKind;

verus! {

#[derive(Clone, Debug)]
pub enum DataValue {
    Null,
    Boolean(bool),
    Int64(i64),
    UInt64(u64),
    String(String),
}

impl DataValue {
    /// Reads the value as an unsigned 64-bit integer. Succeeds exactly on
    /// `UInt64` values and on non-negative `Int64` values.
    pub fn as_u64(&self) -> (r: Result<u64, ErrorCode>)
        ensures
            match r {
                Ok(v) => (*self == DataValue::UInt64(v)) || (*self == DataValue::Int64(v as i64)
                    && v <= i64::MAX),
                Err(e) => e.kind == ErrorKind::IllegalDataType && (match *self {
                    DataValue::UInt64(_) => false,
                    DataValue::Int64(v) => v < 0,
                    _ => true,
                }),
            },
    {
        match self {
            DataValue::UInt64(v) => Ok(*v),
            DataValue::Int64(v) => {
                if *v >= 0 {
                    Ok(*v as u64)
                } else {
                    Err(ErrorCode::new(
                        ErrorKind::IllegalDataType,
                        String::from_str("Cannot read a negative value as an unsigned integer"),
                    ))
                }
            },
            _ => Err(ErrorCode::new(
                ErrorKind::IllegalDataType,
                String::from_str("Cannot read a non-integer value as an unsigned integer"),
            )),
        }
    }

    /// Reads the value as a signed 64-bit integer. Succeeds exactly on
    /// `Int64` values and on `UInt64` values that fit.
    pub fn as_i64(&self) -> (r: Result<i64, ErrorCode>)
        ensures
            match r {
                Ok(v) => (*self == DataValue::Int64(v)) || (*self == DataValue::UInt64(v as u64)
                    && v >= 0),
                Err(e) => e.kind == ErrorKind::IllegalDataType && (match *self {
                    DataValue::Int64(_) => false,
                    DataValue::UInt64(v) => v > i64::MAX as u64,
                    _ => true,
                }),
            },
    {
        match self {
            DataValue::Int64(v) => Ok(*v),
            DataValue::UInt64(v) => {
                if *v <= i64::MAX as u64 {
                    Ok(*v as i64)
                } else {
                    Err(ErrorCode::new(
                        ErrorKind::IllegalDataType,
                        String::from_str("Unsigned value too large for a signed integer"),
                    ))
                }
            },
            _ => Err(ErrorCode::new(
                ErrorKind::IllegalDataType,
                String::from_str("Cannot read a non-integer value as a signed integer"),
            )),
        }
    }
}

} // verus!
