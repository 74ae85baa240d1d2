//! Checks on the input table before any computation starts.

use polars::frame::DataFrame;
use vstd::prelude::*;
use vstd::string::StringExecFns;
use crate::errors::{CzscError, CzscResult};

verus! {

/// A polars `DataFrame`, held whole. Nothing inside it is visible to the
/// proofs: they know of a table only what [`frame_columns`] and
/// [`frame_height`] name, and learn it through the calls below.
#[verifier::external_body]
pub struct Table {
    pub frame: DataFrame,
}

/// The columns of a table in their order, each with its name and the number
/// of nulls it holds, as polars reports them.
pub uninterp spec fn frame_columns(frame: Table) -> Seq<(Seq<char>, nat)>;

/// The number of rows of a table, as polars reports it.
pub uninterp spec fn frame_height(frame: Table) -> nat;

/// Whether the table has a column of that name.
pub open spec fn has_column(frame: Table, name: Seq<char>) -> bool {
    exists|i: int| 0 <= i < frame_columns(frame).len() && (#[trigger] frame_columns(frame)[i]).0 == name
}

/// Whether any column of the table holds a null.
pub open spec fn has_nulls(frame: Table) -> bool {
    exists|i: int| 0 <= i < frame_columns(frame).len() && (#[trigger] frame_columns(frame)[i]).1 > 0
}

/// Calls polars' `DataFrame::width`: the number of columns.
#[verifier::external_body]
fn column_count(frame: &Table) -> (count: usize)
    ensures
        count == frame_columns(*frame).len(),
{
    frame.frame.width()
}

/// Calls polars' `DataFrame::height`: the number of rows.
#[verifier::external_body]
fn row_count(frame: &Table) -> (count: usize)
    ensures
        count == frame_height(*frame),
{
    frame.frame.height()
}

/// Calls polars' `Column::null_count` on the column at `index` of
/// `DataFrame::get_columns`: the number of nulls in that column.
#[verifier::external_body]
fn null_count_at(frame: &Table, index: usize) -> (count: usize)
    requires
        index < frame_columns(*frame).len(),
    ensures
        count == frame_columns(*frame)[index as int].1,
{
    frame.frame.get_columns()[index].null_count()
}

/// Calls polars' `Column::name` on the column at `index` of
/// `DataFrame::get_columns` and copies the name out: the name of that
/// column. Neither call builds an error value.
#[verifier::external_body]
fn column_name_at(frame: &Table, index: usize) -> (name: String)
    requires
        index < frame_columns(*frame).len(),
    ensures
        name@ == frame_columns(*frame)[index as int].0,
{
    frame.frame.get_columns()[index].name().as_str().to_owned()
}

fn column_exists(frame: &Table, name: &str) -> (found: bool)
    ensures
        found == has_column(*frame, name@),
{
    let wanted = String::from_str(name);
    let width: usize = column_count(frame);
    let mut at: usize = 0;
    while at < width
        invariant
            at <= width,
            width == frame_columns(*frame).len(),
            wanted@ == name@,
            forall|i: int| 0 <= i < at ==> (#[trigger] frame_columns(*frame)[i]).0 != name@,
        decreases width - at,
    {
        if column_name_at(frame, at) == wanted {
            return true;
        }
        at = at + 1;
    }
    false
}

fn any_nulls(frame: &Table) -> (found: bool)
    ensures
        found == has_nulls(*frame),
{
    let width: usize = column_count(frame);
    let mut at: usize = 0;
    while at < width
        invariant
            at <= width,
            width == frame_columns(*frame).len(),
            forall|i: int| 0 <= i < at ==> (#[trigger] frame_columns(*frame)[i]).1 == 0,
        decreases width - at,
    {
        if null_count_at(frame, at) > 0 {
            return true;
        }
        at = at + 1;
    }
    false
}

/// The message for a table that lacks a required column.
pub open spec fn missing_column_message(name: Seq<char>) -> Seq<char> {
    "DataFrame is missing required column: "@ + name
}

/// What the checks say of a table: the first failure in the order in which
/// they are made, or `None` for a table that passes. The required columns
/// `dt`, `symbol`, `weight` and `price` come first, in that order, then the
/// table must have a row, then no column may hold a null.
pub open spec fn validation_failure(frame: Table) -> Option<Seq<char>> {
    if !has_column(frame, "dt"@) {
        Some(missing_column_message("dt"@))
    } else if !has_column(frame, "symbol"@) {
        Some(missing_column_message("symbol"@))
    } else if !has_column(frame, "weight"@) {
        Some(missing_column_message("weight"@))
    } else if !has_column(frame, "price"@) {
        Some(missing_column_message("price"@))
    } else if frame_height(frame) == 0 {
        Some("DataFrame is empty"@)
    } else if has_nulls(frame) {
        Some("DataFrame contains null values"@)
    } else {
        None
    }
}

fn missing_column(name: &str) -> (error: CzscError)
    ensures
        error matches CzscError::Validation(message) && message@ == missing_column_message(name@),
{
    let mut message = String::from_str("DataFrame is missing required column: ");
    message.append(name);
    CzscError::Validation(message)
}

/// Checks that a table can be backtested: it has the four required
/// columns, at least one row and no null.
pub fn validate_dataframe(df: &Table) -> (checked: CzscResult<()>)
    ensures
        match validation_failure(*df) {
            None => checked is Ok,
            Some(reason) => checked matches Err(CzscError::Validation(message)) && message@
                == reason,
        },
{
    if !column_exists(df, "dt") {
        return Err(missing_column("dt"));
    }
    if !column_exists(df, "symbol") {
        return Err(missing_column("symbol"));
    }
    if !column_exists(df, "weight") {
        return Err(missing_column("weight"));
    }
    if !column_exists(df, "price") {
        return Err(missing_column("price"));
    }
    if row_count(df) == 0 {
        return Err(CzscError::Validation(String::from_str("DataFrame is empty")));
    }
    if any_nulls(df) {
        return Err(CzscError::Validation(String::from_str("DataFrame contains null values")));
    }
    Ok(())
}

} // verus!
