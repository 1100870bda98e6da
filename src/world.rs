//! Whether a world is one whose market data can be queried, as the game's
//! `World` sheet says.

use vstd::prelude::*;

use ironworks::excel::{Excel, Field, Row, Sheet};

verus! {

#[verifier::external_type_specification]
#[verifier::external_body]
pub struct ExExcel<'i>(Excel<'i>);

#[verifier::external_type_specification]
#[verifier::external_body]
#[verifier::reject_recursive_types(S)]
pub struct ExSheet<'i, S>(Sheet<'i, S>);

#[verifier::external_type_specification]
#[verifier::external_body]
pub struct ExRow(Row);

#[verifier::external_type_specification]
#[verifier::external_body]
pub struct ExField(Field);

#[verifier::external_type_specification]
#[verifier::external_body]
pub struct ExIronworksError(ironworks::Error);

/// The sheet that lists the worlds.
pub const WORLD_SHEET: &'static str = "World";

/// The column of the `World` sheet that holds a world's display name.
pub const WORLD_NAME_COLUMN: usize = 1;

/// The column of the `World` sheet that says whether a world is public.
pub const WORLD_IS_PUBLIC_COLUMN: usize = 5;

/// Why a world could not be looked up.
#[derive(Clone, Copy, Debug, PartialEq, Eq, Structural)]
pub enum ReferenceError {
    /// The sheet or the row could not be read.
    Lookup,
    /// A column of the row does not hold the kind of value it should.
    UnexpectedField,
}

/// The display name of the pseudo-world that stands for a random world.
pub open spec fn chaos_name() -> Seq<char> {
    "Chaos"@
}

/// Whether a world with these attributes can be queried: it is public, and
/// it is not the pseudo-world named `Chaos`.
pub open spec fn is_queryable(is_public: bool, name: Seq<char>) -> bool {
    is_public && name != chaos_name()
}

/// Whether a world with these attributes can be queried.
pub fn world_is_queryable(is_public: bool, name: &String) -> (r: bool)
    ensures
        r == is_queryable(is_public, name@),
{
    let chaos = "Chaos".to_owned();
    is_public && !name.eq(&chaos)
}

/// Whether a world row with these columns can be queried. Both columns must
/// hold a value of the expected kind, else the row is unexpected.
pub fn world_check(is_public: Option<bool>, name: Option<String>) -> (r: Result<
    bool,
    ReferenceError,
>)
    ensures
        match (is_public, name) {
            (Some(p), Some(n)) => r == Ok::<bool, ReferenceError>(is_queryable(p, n@)),
            _ => r == Err::<bool, ReferenceError>(ReferenceError::UnexpectedField),
        },
{
    match (is_public, name) {
        (Some(p), Some(n)) => Ok(world_is_queryable(p, &n)),
        _ => Err(ReferenceError::UnexpectedField),
    }
}

/// Whether the world whose row was read as these columns can be queried.
/// Each column is `None` where the sheet, the row or the column could not be
/// read: that is a lookup failure, never a world that does not exist.
/// Otherwise the result is that of `world_check` on what the columns hold.
pub fn world_from_lookup(is_public: Option<Option<bool>>, name: Option<Option<String>>) -> (r:
    Result<bool, ReferenceError>)
    ensures
        match (is_public, name) {
            (Some(Some(p)), Some(Some(n))) => r == Ok::<bool, ReferenceError>(
                is_queryable(p, n@),
            ),
            (Some(_), Some(_)) => r == Err::<bool, ReferenceError>(
                ReferenceError::UnexpectedField,
            ),
            _ => r == Err::<bool, ReferenceError>(ReferenceError::Lookup),
        },
{
    match (is_public, name) {
        (Some(p), Some(n)) => world_check(p, n),
        _ => Err(ReferenceError::Lookup),
    }
}

/// Relies on `Excel::sheet`: opens the sheet of this name, read as plain rows.
#[verifier::external_body]
fn excel_sheet<'a>(excel: &'a Excel<'_>, name: &'static str) -> (r: Result<
    Sheet<'a, &'static str>,
    ironworks::Error,
>) {
    excel.sheet(name)
}

/// Relies on `Sheet::row`: reads the row of this id.
#[verifier::external_body]
fn sheet_row(sheet: &Sheet<'_, &'static str>, row_id: u32) -> (r: Result<Row, ironworks::Error>) {
    sheet.row(row_id)
}

/// Relies on `Row::field`: reads the value in this column of the row.
#[verifier::external_body]
fn row_field(row: &Row, column: usize) -> (r: Result<Field, ironworks::Error>) {
    row.field(column)
}

/// Relies on `Field`'s variants: the flag a boolean field holds.
#[verifier::external_body]
fn field_bool(field: &Field) -> (r: Option<bool>) {
    match field {
        Field::Bool(b) => Some(*b),
        _ => None,
    }
}

/// Relies on `Field`'s variants and `SeString::to_string`: the text a string
/// field holds.
#[verifier::external_body]
fn field_text(field: &Field) -> (r: Option<String>) {
    match field {
        Field::String(s) => Some(s.to_string()),
        _ => None,
    }
}

/// Looks the world up in the `World` sheet and tells whether it can be
/// queried. A sheet, row or column that cannot be read is a lookup failure,
/// not a world that does not exist (see `world_from_lookup`).
pub fn does_world_exist(excel: &Excel, world_id: u32) -> (r: Result<bool, ReferenceError>) {
    let (is_public, name) = match excel_sheet(excel, WORLD_SHEET) {
        Err(_) => (None, None),
        Ok(sheet) => match sheet_row(&sheet, world_id) {
            Err(_) => (None, None),
            Ok(row) => {
                let is_public = match row_field(&row, WORLD_IS_PUBLIC_COLUMN) {
                    Ok(f) => Some(field_bool(&f)),
                    Err(_) => None,
                };
                let name = match row_field(&row, WORLD_NAME_COLUMN) {
                    Ok(f) => Some(field_text(&f)),
                    Err(_) => None,
                };
                (is_public, name)
            },
        },
    };
    world_from_lookup(is_public, name)
}

} // verus!
