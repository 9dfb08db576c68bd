//! Shared argument checks for scalar functions.

use vstd::prelude::*;
use vstd::string::StringExecFns;

use crate::data_type::DataType;
use crate::error::ErrorCode;
use crate::error::ErrorKind;
use crate::type_id::TypeID;

verus! {

/// Checks that a type is numeric; the error names the offending type so
/// the query author can correct the expression.
pub fn assert_numeric(data_type: &DataType) -> (r: Result<(), ErrorCode>)
    ensures
        match r {
            Ok(_) => data_type.base.spec_id().spec_is_numeric(),
            Err(e) => {
                &&& !data_type.base.spec_id().spec_is_numeric()
                &&& e.kind == ErrorKind::IllegalDataType
                &&& (data_type.base.spec_id() == TypeID::String ==> e.message@
                    == "Expected a numeric type, but got String"@)
            },
        },
{
    let id = data_type.data_type_id();
    if id.is_numeric() {
        Ok(())
    } else {
        let mut m = String::from_str("Expected a numeric type, but got ");
        m.append(id.name());
        proof {
            if id == TypeID::String {
                reveal_strlit("Expected a numeric type, but got ");
                reveal_strlit("String");
                reveal_strlit("Expected a numeric type, but got String");
                assert(m@ =~= "Expected a numeric type, but got String"@);
            }
        }
        Err(ErrorCode::new(ErrorKind::IllegalDataType, m))
    }
}

} // verus!
