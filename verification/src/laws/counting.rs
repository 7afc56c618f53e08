//! Counting the parts that have arrived.
use crate::db::Database;
use crate::db::schema::{PartStatus, PartView};
use crate::db::tables::uploaded_count;
use crate::decimal::decimal;
use crate::error::{AppError, ErrorView};
use vstd::prelude::*;

verus! {

/// The number of rows of this upload that say that their part has arrived.
pub open spec fn arrived(parts: Seq<PartView>, id: Seq<char>) -> nat {
    parts.filter(|p: PartView| p.upload_id == id && p.status == PartStatus::Uploaded).len()
}

/// The parts that are counted are the rows of the upload that have arrived.
pub proof fn uploaded_parts_are_the_arrived(parts: Seq<PartView>, id: Seq<char>)
    ensures
        uploaded_count(parts, id) == arrived(parts, id),
    decreases parts.len(),
{
    reveal(Seq::filter);
    if parts.len() > 0 {
        uploaded_parts_are_the_arrived(parts.drop_last(), id);
    }
}

/// Asking for the number of uploaded parts gives the number of rows that have
/// arrived, wherever it fits its type, and is refused where it does not.
pub proof fn counting_gives_the_arrived(
    db: &Database,
    upload_id: &str,
    outcome: Result<i32, AppError>,
)
    requires
        call_ensures(Database::count_uploaded_parts, (db, upload_id), outcome),
    ensures
        outcome is Ok == (arrived(db@.parts, upload_id@) <= i32::MAX),
        outcome matches Ok(n) ==> n == arrived(db@.parts, upload_id@),
        outcome matches Err(e) ==> e@ == ErrorView::Database(
            "Integer "@ + decimal(arrived(db@.parts, upload_id@) as int)
                + " out of range at index 0"@,
        ),
{
    uploaded_parts_are_the_arrived(db@.parts, upload_id@);
}

} // verus!
