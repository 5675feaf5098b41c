//! The status message that the number of rows a statement touched becomes.
//!
//! Exactly one row is success. Any other count, zero among them, is no error:
//! it gives the message that nothing was done.

use crate::decimal::{append_decimal, decimal};
use vstd::prelude::*;
use vstd::string::StringExecFns;

verus! {

/// The message that no row was created.
pub open spec fn nothing_created() -> Seq<char> {
    "No records have been created!"@
}

/// The message that no row was updated.
pub open spec fn nothing_updated() -> Seq<char> {
    "No records have been updated!"@
}

/// The message that no row was deleted.
pub open spec fn nothing_deleted() -> Seq<char> {
    "No records were deleted!"@
}

/// The message after a statement that was to add a row named `name` touched
/// `rows` rows.
pub open spec fn created_message(rows: int, name: Seq<char>) -> Seq<char> {
    if rows == 1 {
        "Registry \""@ + name + "\", created!"@
    } else {
        nothing_created()
    }
}

/// The message after a statement that was to rename the row `id` touched
/// `rows` rows.
pub open spec fn updated_message(rows: int, id: int) -> Seq<char> {
    if rows == 1 {
        "Registry id: "@ + decimal(id) + ", updated!!"@
    } else {
        nothing_updated()
    }
}

/// The message after a statement that was to remove the row `id` touched
/// `rows` rows.
pub open spec fn deleted_message(rows: int, id: int) -> Seq<char> {
    if rows == 1 {
        "Registry id: "@ + decimal(id) + ", deleted!"@
    } else {
        nothing_deleted()
    }
}

/// The message after a statement that was to add a row named `name` touched
/// `rows` rows.
pub fn created(rows: u64, name: &str) -> (message: String)
    ensures
        message@ == created_message(rows as int, name@),
{
    if rows == 1 {
        let mut message = String::from_str("Registry \"");
        message.append(name);
        message.append("\", created!");
        message
    } else {
        String::from_str("No records have been created!")
    }
}

/// The message after a statement that was to rename the row `id` touched
/// `rows` rows.
pub fn updated(rows: u64, id: i32) -> (message: String)
    ensures
        message@ == updated_message(rows as int, id as int),
{
    if rows == 1 {
        let mut message = String::from_str("Registry id: ");
        append_decimal(&mut message, id);
        message.append(", updated!!");
        message
    } else {
        String::from_str("No records have been updated!")
    }
}

/// The message after a statement that was to remove the row `id` touched
/// `rows` rows.
pub fn deleted(rows: u64, id: i32) -> (message: String)
    ensures
        message@ == deleted_message(rows as int, id as int),
{
    if rows == 1 {
        let mut message = String::from_str("Registry id: ");
        append_decimal(&mut message, id);
        message.append(", deleted!");
        message
    } else {
        String::from_str("No records were deleted!")
    }
}

} // verus!
