//! Uploads and their parts, as the service records them.
pub mod lifecycle;
pub mod repository;
pub mod schema;
pub mod tables;

use crate::db::schema::{Upload, UploadPart};
use crate::db::tables::{keys_hold, Tables};
use vstd::prelude::*;

verus! {

/// The rows of the `uploads` and `upload_parts` tables.
pub struct Database {
    uploads: Vec<Upload>,
    parts: Vec<UploadPart>,
}

impl View for Database {
    type V = Tables;

    closed spec fn view(&self) -> Tables {
        Tables {
            uploads: Seq::new(self.uploads@.len(), |i: int| self.uploads@[i]@),
            parts: Seq::new(self.parts@.len(), |i: int| self.parts@[i]@),
        }
    }
}

impl Database {
    /// The keys of the tables hold.
    pub open spec fn wf(&self) -> bool {
        keys_hold(self@)
    }

    /// Tables without a row.
    pub fn new() -> (db: Database)
        ensures
            db.wf(),
            db@.uploads.len() == 0,
            db@.parts.len() == 0,
    {
        Database { uploads: Vec::new(), parts: Vec::new() }
    }
}

} // verus!
