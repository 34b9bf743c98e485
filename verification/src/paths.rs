//! Path resolution: derives the registry's on-disk locations from a
//! host-supplied base data directory.

use vstd::prelude::*;
use vstd::string::StringExecFns;

verus! {

/// The plugin's data directory under a base data directory.
pub open spec fn spec_plugin_dir(base: Seq<char>) -> Seq<char> {
    base + "/plugins/session"@
}

/// The record database file inside the plugin's data directory.
pub open spec fn spec_database_path(base: Seq<char>) -> Seq<char> {
    spec_plugin_dir(base) + "/sqlite.db"@
}

/// The two on-disk locations of the registry, derived from a base data
/// directory.  Pure data: resolving performs no I/O, and callers are
/// responsible for creating `plugin` before using either path.
pub struct SessionPath {
    /// Directory holding the session artifacts and the database.
    pub plugin: String,
    /// The record database file.
    pub database: String,
}

impl SessionPath {
    /// Resolves the registry location for `data_path`.  Deterministic and
    /// total: equal base directories always yield equal locations.
    pub fn new(data_path: &str) -> (r: Self)
        ensures
            r.plugin@ == spec_plugin_dir(data_path@),
            r.database@ == spec_database_path(data_path@),
    {
        let plugin = String::from_str(data_path).concat("/plugins/session");
        let database = plugin.clone().concat("/sqlite.db");
        SessionPath { plugin, database }
    }
}

/// The full path of a session artifact named `token` under `plugin_dir`.
pub open spec fn spec_session_file(plugin_dir: Seq<char>, token: Seq<char>) -> Seq<char> {
    plugin_dir + "/"@ + token + ".vim"@
}

/// Composes the path of a session artifact under `plugin_dir`.
pub fn session_file_path(plugin_dir: &str, token: &str) -> (r: String)
    ensures
        r@ == spec_session_file(plugin_dir@, token@),
{
    String::from_str(plugin_dir).concat("/").concat(token).concat(".vim")
}

} // verus!
