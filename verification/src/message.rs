//! The lines that tell a person how an operation went.

use vstd::prelude::*;
use vstd::string::*;
use crate::text::{decimal, push_decimal};

verus! {

/// What is said when no collection carries `title`.
pub open spec fn not_found_text(title: Seq<char>) -> Seq<char> {
    "Unable to find title "@ + title + " in the database."@
}

/// What is said when `count` codes have been loaded under `title`.
pub open spec fn loaded_text(count: nat, title: Seq<char>) -> Seq<char> {
    "Loaded "@ + decimal(count) + " codes into collection "@ + title
}

/// The message for a title that no collection carries.
pub fn not_found_message(title: &str) -> (r: String)
    ensures
        r@ == not_found_text(title@),
{
    let mut r = String::from_str("Unable to find title ");
    r.append(title);
    r.append(" in the database.");
    r
}

/// The message for a load that was committed.
pub fn loaded_message(count: usize, title: &str) -> (r: String)
    ensures
        r@ == loaded_text(count as nat, title@),
{
    let mut r = String::from_str("Loaded ");
    push_decimal(&mut r, count);
    r.append(" codes into collection ");
    r.append(title);
    r
}

} // verus!
