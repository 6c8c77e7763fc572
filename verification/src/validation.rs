//! Length rules for the texts of a payload.

use vstd::prelude::*;
use vstd::string::StringExecFns;
use crate::text::{decimal, push_decimal};

verus! {

/// What is said of a text that is shorter than `min` characters.
pub open spec fn complaint(field: Seq<char>, min: u64) -> Seq<char> {
    field + ": length must be at least "@ + decimal(min as nat)
}

/// The complaints about two texts, one per line, for those of them that are
/// too short.
pub open spec fn complaints(
    first: Seq<char>,
    first_min: u64,
    first_ok: bool,
    second: Seq<char>,
    second_min: u64,
    second_ok: bool,
) -> Seq<char> {
    if first_ok {
        if second_ok {
            Seq::empty()
        } else {
            complaint(second, second_min)
        }
    } else if second_ok {
        complaint(first, first_min)
    } else {
        complaint(first, first_min) + "\n"@ + complaint(second, second_min)
    }
}

/// `validator::validate_length` with a lower bound only: whether `text` has
/// at least `min` characters.
#[verifier::external_body]
pub(crate) fn has_min_length(text: &String, min: u64) -> (ok: bool)
    ensures
        ok == (text@.len() >= min),
{
    validator::validate_length(text, Some(min), None, None)
}

fn push_complaint(out: &mut String, field: &str, min: u64)
    ensures
        final(out)@ == old(out)@ + complaint(field@, min),
{
    out.append(field);
    out.append(": length must be at least ");
    push_decimal(out, min);
    assert(out@ =~= old(out)@ + complaint(field@, min));
}

/// Holds two texts to their least lengths. `Ok` when both are long enough,
/// else the complaints.
pub fn check_lengths(
    first_name: &str,
    first: &String,
    first_min: u64,
    second_name: &str,
    second: &String,
    second_min: u64,
) -> (checked: Result<(), String>)
    ensures
        checked is Ok <==> first@.len() >= first_min && second@.len() >= second_min,
        checked is Err ==> checked->Err_0@ == complaints(
            first_name@,
            first_min,
            first@.len() >= first_min,
            second_name@,
            second_min,
            second@.len() >= second_min,
        ),
{
    let first_ok = has_min_length(first, first_min);
    let second_ok = has_min_length(second, second_min);
    if first_ok && second_ok {
        return Ok(());
    }
    let mut out = String::new();
    if !first_ok {
        push_complaint(&mut out, first_name, first_min);
        if !second_ok {
            out.append("\n");
        }
    }
    if !second_ok {
        push_complaint(&mut out, second_name, second_min);
    }
    assert(out@ =~= complaints(
        first_name@,
        first_min,
        first_ok,
        second_name@,
        second_min,
        second_ok,
    ));
    Err(out)
}

} // verus!
