//! Lookup of time-zone names in the zone database, used by the datetime
//! type when building its serializer.

use vstd::prelude::*;

verus! {

/// Whether the zone database knows a timezone of this name.
pub uninterp spec fn tz_known(name: Seq<char>) -> bool;

/// Relies on chrono_tz's `Tz::from_str`: it succeeds exactly when the name
/// is present in the crate's static timezone table, so the outcome depends
/// on the name alone; that table contains "UTC".
#[verifier::external_body]
pub(crate) fn timezone_exists(name: &str) -> (r: bool)
    ensures
        r == tz_known(name@),
        name@ == "UTC"@ ==> r,
{
    name.parse::<chrono_tz::Tz>().is_ok()
}

} // verus!
