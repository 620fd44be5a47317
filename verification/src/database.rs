//! Where the local index of a synchronised folder lives.

use vstd::prelude::*;
use crate::path::{join, spec_join};

verus! {

/// Name of the local index file in the synchronised folder.
pub const DB_NAME: &'static str = ".trsync.db";

/// The local index of a synchronised folder.
#[derive(Debug, Clone)]
pub struct Database {
    database_file_path: String,
}

impl Database {
    /// The index stored in the given file.
    pub fn new(database_file_path: String) -> (r: Database)
        ensures
            r.file_path() == database_file_path@,
    {
        Database { database_file_path }
    }

    /// Path of the index file.
    pub closed spec fn file_path(&self) -> Seq<char> {
        self.database_file_path@
    }

    /// Path of the index file.
    pub fn database_file_path(&self) -> (r: &String)
        ensures
            r@ == self.file_path(),
    {
        &self.database_file_path
    }
}

/// Path of the local index of the synchronised folder `workspace_path`.
pub fn db_path(workspace_path: &str) -> (r: String)
    ensures
        r@ == spec_join(workspace_path@, DB_NAME@),
{
    join(workspace_path, DB_NAME)
}

} // verus!
