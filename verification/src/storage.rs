//! Values read back from the daemon's service metadata store.

use vstd::prelude::*;
use crate::text::{concat2, decimal, u64_to_decimal};

verus! {

/// The decimal rendering of a signed integer, with a leading `-` when negative.
pub open spec fn signed_decimal(v: int) -> Seq<char> {
    if v < 0 {
        "-"@ + decimal((-v) as nat)
    } else {
        decimal(v as nat)
    }
}

/// The decimal rendering of `v`.
fn i64_to_decimal(v: i64) -> (s: String)
    ensures
        s@ == signed_decimal(v as int),
{
    if v >= 0 {
        u64_to_decimal(v as u64)
    } else {
        let magnitude = (-(v as i128)) as u64;
        let digits = u64_to_decimal(magnitude);
        concat2("-", digits.as_str())
    }
}

/// The message for a stored port that is not a valid port number.
pub open spec fn invalid_port_message(v: i64) -> Seq<char> {
    "Invalid port value in database: "@ + signed_decimal(v as int)
}

/// The port stored in a service's row: no row or no value gives `None`;
/// a value outside `0..=65535` is an error naming it.
pub fn port_from_column(value: Option<Option<i64>>) -> (r: Result<Option<u16>, String>)
    ensures
        value matches Some(Some(v)) ==> (if 0 <= v <= 65535 {
            r == Ok::<Option<u16>, String>(Some(v as u16))
        } else {
            r matches Err(m) && m@ == invalid_port_message(v)
        }),
        !(value matches Some(Some(_))) ==> r == Ok::<Option<u16>, String>(None),
{
    match value {
        Some(Some(v)) => {
            if 0 <= v && v <= 65535 {
                Ok(Some(v as u16))
            } else {
                let d = i64_to_decimal(v);
                Err(concat2("Invalid port value in database: ", d.as_str()))
            }
        },
        _ => Ok(None),
    }
}

} // verus!
