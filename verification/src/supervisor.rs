//! What the supervisor that rebuilds the artifact decides.

use vstd::prelude::*;
use crate::engine::artifact_path;
use crate::text::concat3;

verus! {

/// The path of the binary `name` built under the project root `toml_dir`:
/// the artifact that the engine reloads.
pub fn get_exe_name(toml_dir: &str, name: &str) -> (path: String)
    ensures
        path@ == artifact_path(toml_dir@, name@),
{
    concat3(toml_dir, "/target/debug/", name)
}

/// The features a build is made with. A stub build leaves the engine out of
/// the artifact.
pub open spec fn features_of(stub: bool) -> Seq<char> {
    if stub {
        "reloady/enabled"@
    } else {
        "reloady/enabled"@ + ","@ + "reloady/unstub"@
    }
}

/// The feature list handed to the build tool.
pub fn build_features(stub: bool) -> (features: String)
    ensures
        features@ == features_of(stub),
{
    if stub {
        String::from_str("reloady/enabled")
    } else {
        concat3("reloady/enabled", ",", "reloady/unstub")
    }
}

/// What the watcher saw happen under the source directory.
#[derive(Clone, Copy, Debug, PartialEq, Eq, Structural)]
pub enum Change {
    Create,
    Write,
    Remove,
    Rename,
    Rescan,
    /// A notice that a change is under way, or a change of permissions.
    Other,
}

/// Whether a change to the sources asks for a rebuild.
pub fn triggers_rebuild(change: Change) -> (rebuild: bool)
    ensures
        rebuild == (change != Change::Other),
{
    match change {
        Change::Other => false,
        _ => true,
    }
}

} // verus!
