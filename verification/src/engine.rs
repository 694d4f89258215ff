//! The engine: the state that all hot-reloadable functions of a process
//! share.

use vstd::prelude::*;
use crate::debuginfo::Debuginfo;
use crate::ledger::VersionLedger;
use crate::module::{ModuleManager, ModuleView};
use crate::text::concat3;

verus! {

/// The state of an engine as plain values.
pub struct EngineView<H> {
    /// The name of the running binary.
    pub crate_name: Seq<char>,
    /// The root directory of the project.
    pub manifest_dir: Seq<char>,
    /// How many failures in a row a poll survives; `None` for any number.
    pub retry_limit: Option<u32>,
    /// The modification time of the artifact when a reload last began.
    pub last_modified: u128,
    /// The global reload version.
    pub version: u64,
    /// The version each function's slot was last synced to.
    pub synced: Map<Seq<char>, u64>,
    /// The loaded module.
    pub module: Option<ModuleView<H>>,
}

/// The path of the build artifact of a binary under a project root.
pub open spec fn artifact_path(manifest_dir: Seq<char>, crate_name: Seq<char>) -> Seq<char> {
    manifest_dir + "/target/debug/"@ + crate_name
}

impl<H> EngineView<H> {
    /// The path of the build artifact.
    pub open spec fn artifact(self) -> Seq<char> {
        artifact_path(self.manifest_dir, self.crate_name)
    }

    /// No recorded version exceeds the global version.
    pub open spec fn bounded(self) -> bool {
        forall|name: Seq<char>| #[trigger]
            self.synced.contains_key(name) ==> self.synced[name] <= self.version
    }

    /// Whether the slot of `name` lags behind the global version.
    pub open spec fn stale(self, name: Seq<char>) -> bool {
        !self.synced.contains_key(name) || self.synced[name] < self.version
    }
}

/// The state that the hot-reloadable functions of a process share: where the
/// artifact lies, what was last seen of it, the version ledger and the loaded
/// module. `H` is the handle that keeps a module loaded.
pub struct Engine<H> {
    pub crate_name: String,
    pub manifest_dir: String,
    pub retry_limit: Option<u32>,
    pub last_modified: u128,
    pub ledger: VersionLedger,
    pub modules: ModuleManager<H>,
}

impl<H> View for Engine<H> {
    type V = EngineView<H>;

    open spec fn view(&self) -> EngineView<H> {
        EngineView {
            crate_name: self.crate_name@,
            manifest_dir: self.manifest_dir@,
            retry_limit: self.retry_limit,
            last_modified: self.last_modified,
            version: self.ledger.global(),
            synced: self.ledger@,
            module: self.modules@,
        }
    }
}

/// Sets up the engine of a process: the artifact is the binary `crate_name`
/// under the project root `manifest_dir`. Nothing is loaded, the version is 0
/// and no slot is synced; the artifact counts as never seen.
pub fn init2<H>(crate_name: &str, manifest_dir: &str) -> (engine: Engine<H>)
    ensures
        engine.wf(),
        engine@ == (EngineView::<H> {
            crate_name: crate_name@,
            manifest_dir: manifest_dir@,
            retry_limit: None,
            last_modified: 0,
            version: 0,
            synced: Map::empty(),
            module: None,
        }),
{
    Engine {
        crate_name: String::from_str(crate_name),
        manifest_dir: String::from_str(manifest_dir),
        retry_limit: None,
        last_modified: 0,
        ledger: VersionLedger::new(),
        modules: ModuleManager::new(),
    }
}

impl<H> Engine<H> {
    /// The engine's invariant: that of its ledger.
    pub open spec fn wf(&self) -> bool {
        self.ledger.wf()
    }

    /// In a well-formed engine no recorded version exceeds the global one.
    pub proof fn lemma_bounded(&self)
        requires
            self.wf(),
        ensures
            self@.bounded(),
    {
        assert forall|name: Seq<char>| #[trigger] self@.synced.contains_key(name) implies self@.synced[name]
            <= self@.version by {
            self.ledger.lemma_recorded_bounded(name);
        }
    }

    /// The name of the running binary.
    pub fn crate_name(&self) -> (name: &str)
        ensures
            name@ == self@.crate_name,
    {
        self.crate_name.as_str()
    }

    /// The root directory of the project.
    pub fn manifest_dir(&self) -> (dir: &str)
        ensures
            dir@ == self@.manifest_dir,
    {
        self.manifest_dir.as_str()
    }

    /// The path of the artifact that modules are opened from.
    pub fn get_app_path(&self) -> (path: String)
        ensures
            path@ == self@.artifact(),
    {
        concat3(self.manifest_dir.as_str(), "/target/debug/", self.crate_name.as_str())
    }

    /// The path of the artifact that the symbol table is read from: the
    /// artifact itself.
    pub fn get_dbg_path(&self) -> (path: String)
        ensures
            path@ == self@.artifact(),
    {
        self.get_app_path()
    }

    /// The symbol table of the loaded module, if one is loaded.
    pub fn get_debuginfo(&self) -> (table: Option<&Debuginfo>)
        ensures
            match table {
                Some(t) => self@.module is Some && self@.module.unwrap().table == t@,
                None => self@.module is None,
            },
    {
        match self.modules.current() {
            Some(module) => Some(&module.symbols),
            None => None,
        }
    }

    /// The global reload version.
    pub fn version(&self) -> (version: u64)
        ensures
            version == self@.version,
    {
        self.ledger.current()
    }

    /// Bounds the polls of the artifact: after `limit` failures in a row the
    /// next one ends the reload.
    pub fn bound_retries(&mut self, limit: u32)
        ensures
            final(self)@ == (EngineView { retry_limit: Some(limit), ..old(self)@ }),
            final(self).ledger == old(self).ledger,
    {
        self.retry_limit = Some(limit);
    }
}

} // verus!
