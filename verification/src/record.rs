//! The record type persisted by the registry.

use vstd::prelude::*;

verus! {

/// Mathematical image of a record: the two paths as character sequences.
pub ghost struct SpecRecord {
    pub path: Seq<char>,
    pub data: Seq<char>,
}

/// One row of the registry: a workspace path and the path of the session
/// artifact registered for it.
pub struct SessionData {
    /// Canonical path of the project workspace (the primary key).
    pub path: String,
    /// Canonical path of the serialized session artifact (unique as well).
    pub data: String,
}

impl View for SessionData {
    type V = SpecRecord;

    open spec fn view(&self) -> SpecRecord {
        SpecRecord { path: self.path@, data: self.data@ }
    }
}

impl Clone for SessionData {
    fn clone(&self) -> (r: Self)
        ensures
            r@ == self@,
    {
        SessionData { path: self.path.clone(), data: self.data.clone() }
    }
}

} // verus!
