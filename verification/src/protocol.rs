//! The reload protocol that runs before every call of a hot-reloadable
//! function, as a machine: a step takes the engine, the function's slot, the
//! phase the protocol is in and the event that came in, and gives the next
//! phase and the action to perform. The caller performs the action and comes
//! back with its event, until the action is to proceed or to abort.

use vstd::prelude::*;
use crate::debuginfo::{artifact_symbols, resolve, symbol_table, Role, SymbolView};
use crate::engine::{Engine, EngineView};
use crate::error::ReloadError;
use crate::module::{ModuleView, Replaced};
use crate::slot::FunctionSlot;
use crate::text::{qualified, qualified_name};

verus! {

/// Which module a slot is being brought to.
#[derive(Clone, Copy, Debug, PartialEq, Eq, Structural)]
pub enum Pass {
    /// The module that is already loaded.
    CatchUp,
    /// The module opened from a newer artifact.
    Reload,
}

/// Where the protocol stands. The number in a polling phase counts the
/// failures in a row so far.
#[derive(Clone, Copy, Debug, PartialEq, Eq, Structural)]
pub enum Phase {
    /// Nothing was done yet.
    Entry,
    /// The module's signature marker is being called.
    Validating(Pass),
    /// The implementation is being looked up in the module.
    Swapping(Pass),
    /// The artifact's modification time is being read.
    Freshness(u32),
    /// A module is being opened from the artifact.
    Opening(u32),
    /// The call may go through the slot.
    Done,
    /// The protocol ended with an error.
    Failed,
}

/// What the caller found when it performed an action.
pub enum Event<H, F> {
    /// The protocol begins.
    Start,
    /// The value that the module's signature marker returned.
    Marker(u64),
    /// The callable bound to the implementation symbol.
    Implementation(F),
    /// The artifact's modification time.
    Modified(u128),
    /// The artifact's modification time could not be read.
    Unavailable,
    /// A module was opened from the artifact, whose bytes are `image`.
    Opened { handle: H, image: Vec<u8> },
    /// No module could be opened from the artifact.
    OpenFailed,
}

/// An event as plain values.
pub enum EventView<H, F> {
    Start,
    Marker(u64),
    Implementation(F),
    Modified(u128),
    Unavailable,
    Opened { handle: H, image: Seq<u8> },
    OpenFailed,
}

impl<H, F> View for Event<H, F> {
    type V = EventView<H, F>;

    open spec fn view(&self) -> EventView<H, F> {
        match *self {
            Event::Start => EventView::Start,
            Event::Marker(value) => EventView::Marker(value),
            Event::Implementation(callable) => EventView::Implementation(callable),
            Event::Modified(time) => EventView::Modified(time),
            Event::Unavailable => EventView::Unavailable,
            Event::Opened { handle, image } => EventView::Opened { handle, image: image@ },
            Event::OpenFailed => EventView::OpenFailed,
        }
    }
}

/// What the caller is to do next.
#[derive(Clone, Debug, PartialEq, Eq)]
pub enum Action {
    /// Call the function bound to this symbol of the loaded module, which
    /// takes nothing and returns the signature hash; come back with `Marker`.
    CallMarker(String),
    /// Bind this symbol of the loaded module; come back with `Implementation`.
    Resolve(String),
    /// Read the modification time of the artifact at this path; come back
    /// with `Modified` or `Unavailable`.
    Stat(String),
    /// Open the artifact at this path as a module and read its bytes; come
    /// back with `Opened` or `OpenFailed`.
    Open(String),
    /// The slot is up to date: call through it.
    Proceed,
    /// The protocol failed.
    Abort(ReloadError),
}

/// An action as plain values.
pub enum ActionView {
    CallMarker(Seq<char>),
    Resolve(Seq<char>),
    Stat(Seq<char>),
    Open(Seq<char>),
    Proceed,
    Abort(ReloadError),
}

impl View for Action {
    type V = ActionView;

    open spec fn view(&self) -> ActionView {
        match *self {
            Action::CallMarker(symbol) => ActionView::CallMarker(symbol@),
            Action::Resolve(symbol) => ActionView::Resolve(symbol@),
            Action::Stat(path) => ActionView::Stat(path@),
            Action::Open(path) => ActionView::Open(path@),
            Action::Proceed => ActionView::Proceed,
            Action::Abort(error) => ActionView::Abort(error),
        }
    }
}

/// What a step hands to the caller.
#[derive(Debug)]
pub struct Outcome<H> {
    /// The phase to come back in.
    pub phase: Phase,
    /// What to do before coming back.
    pub action: Action,
    /// The handle of a module that is no longer wanted and is to be unloaded.
    pub retired: Option<H>,
}

/// An outcome as plain values.
pub struct Reply<H> {
    pub phase: Phase,
    pub action: ActionView,
    pub retired: Option<H>,
}

impl<H> View for Outcome<H> {
    type V = Reply<H>;

    open spec fn view(&self) -> Reply<H> {
        Reply { phase: self.phase, action: self.action@, retired: self.retired }
    }
}

/// What a step leaves behind, as plain values: the engine, the callable in
/// the slot, and what the caller is handed.
pub struct Step<H, F> {
    pub engine: EngineView<H>,
    pub callable: F,
    pub reply: Reply<H>,
}

/// The symbol table that lookups go to: that of the loaded module.
pub open spec fn table_of<H>(engine: EngineView<H>) -> Seq<SymbolView> {
    match engine.module {
        Some(module) => module.table,
        None => Seq::empty(),
    }
}

/// The handle of the loaded module.
pub open spec fn handle_of<H>(engine: EngineView<H>) -> Option<H> {
    match engine.module {
        Some(module) => Some(module.handle),
        None => None,
    }
}

/// The protocol ends with `error`.
pub open spec fn halt<H>(error: ReloadError) -> Reply<H> {
    Reply { phase: Phase::Failed, action: ActionView::Abort(error), retired: None }
}

/// The call may go through the slot.
pub open spec fn proceed<H>() -> Reply<H> {
    Reply { phase: Phase::Done, action: ActionView::Proceed, retired: None }
}

/// The signature marker of `name` is looked up in the loaded module and is
/// to be called. A module without the marker is not compatible.
pub open spec fn validate<H>(engine: EngineView<H>, name: Seq<char>, pass: Pass) -> Reply<H> {
    match resolve(table_of(engine), name, Role::Marker) {
        Some(i) => Reply {
            phase: Phase::Validating(pass),
            action: ActionView::CallMarker(table_of(engine)[i].mangled),
            retired: None,
        },
        None => halt(ReloadError::AbiMismatch),
    }
}

/// The artifact's modification time is to be read.
pub open spec fn check_freshness<H>(engine: EngineView<H>) -> Reply<H> {
    Reply {
        phase: Phase::Freshness(0),
        action: ActionView::Stat(engine.artifact()),
        retired: None,
    }
}

/// The protocol begins: a stale slot catches up from the loaded module, if
/// one is loaded; otherwise the artifact is looked at.
pub open spec fn on_start<H>(engine: EngineView<H>, name: Seq<char>) -> Reply<H> {
    if engine.stale(name) && engine.module is Some {
        validate(engine, name, Pass::CatchUp)
    } else {
        check_freshness(engine)
    }
}

/// The marker returned `value`: unless it is the hash of the call site, the
/// module is not compatible. Otherwise the implementation is looked up and
/// is to be bound.
pub open spec fn on_marker<H>(
    engine: EngineView<H>,
    name: Seq<char>,
    sighash: u64,
    pass: Pass,
    value: u64,
) -> Reply<H> {
    if value != sighash {
        halt(ReloadError::AbiMismatch)
    } else {
        match resolve(table_of(engine), name, Role::Implementation) {
            Some(i) => Reply {
                phase: Phase::Swapping(pass),
                action: ActionView::Resolve(table_of(engine)[i].mangled),
                retired: None,
            },
            None => halt(ReloadError::SymbolNotFound),
        }
    }
}

/// The engine once the slot of `name` is synced to the global version.
pub open spec fn synced<H>(engine: EngineView<H>, name: Seq<char>) -> EngineView<H> {
    EngineView { synced: engine.synced.insert(name, engine.version), ..engine }
}

/// The implementation was bound and went into the slot. After a catch-up
/// the artifact is looked at; after a reload the call may go on.
pub open spec fn on_implementation<H>(engine: EngineView<H>, pass: Pass) -> Reply<H> {
    match pass {
        Pass::CatchUp => check_freshness(engine),
        Pass::Reload => proceed(),
    }
}

/// Whether an artifact modified at `time` is newer than what the engine saw.
pub open spec fn is_newer<H>(engine: EngineView<H>, time: u128) -> bool {
    time > engine.last_modified
}

/// The engine once a reload began on an artifact modified at `time`: the
/// time is kept and the global version has moved on by one.
pub open spec fn reloading<H>(engine: EngineView<H>, time: u128) -> EngineView<H> {
    EngineView { last_modified: time, version: (engine.version + 1) as u64, ..engine }
}

/// The engine once the artifact was seen to be modified at `time`: a reload
/// begins if that is newer than what was seen.
pub open spec fn after_modified<H>(engine: EngineView<H>, time: u128) -> EngineView<H> {
    if is_newer(engine, time) {
        reloading(engine, time)
    } else {
        engine
    }
}

/// The artifact was modified at `time`. If that is newer than what was seen,
/// a module is to be opened. If not, there is nothing to do.
pub open spec fn on_modified<H>(engine: EngineView<H>, time: u128) -> Reply<H> {
    if is_newer(engine, time) {
        Reply {
            phase: Phase::Opening(0),
            action: ActionView::Open(engine.artifact()),
            retired: None,
        }
    } else {
        proceed()
    }
}

/// Whether a poll that failed `failures` times in a row before is given up
/// when it fails again.
pub open spec fn gives_up(limit: Option<u32>, failures: u32) -> bool {
    match limit {
        Some(most) => failures >= most,
        None => false,
    }
}

/// The count of failures in a row after one more.
pub open spec fn one_more(failures: u32) -> u32 {
    if failures < u32::MAX {
        (failures + 1) as u32
    } else {
        failures
    }
}

/// Reading the modification time failed: it is read again, unless the poll
/// is given up.
pub open spec fn on_unavailable<H>(engine: EngineView<H>, failures: u32) -> Reply<H> {
    if gives_up(engine.retry_limit, failures) {
        halt(ReloadError::ArtifactUnavailable)
    } else {
        Reply {
            phase: Phase::Freshness(one_more(failures)),
            action: ActionView::Stat(engine.artifact()),
            retired: None,
        }
    }
}

/// Opening failed with `error`: the artifact is opened again, unless the
/// poll is given up.
pub open spec fn reopen<H>(engine: EngineView<H>, failures: u32, error: ReloadError) -> Reply<H> {
    if gives_up(engine.retry_limit, failures) {
        halt(error)
    } else {
        Reply {
            phase: Phase::Opening(one_more(failures)),
            action: ActionView::Open(engine.artifact()),
            retired: None,
        }
    }
}

/// The engine once a module was opened from an artifact with the bytes
/// `image`: if the artifact's symbol table can be read, the module takes the
/// place of the loaded one.
pub open spec fn after_opened<H>(engine: EngineView<H>, handle: H, image: Seq<u8>) -> EngineView<
    H,
> {
    match artifact_symbols(image) {
        Some(names) => EngineView {
            module: Some(ModuleView { handle, table: symbol_table(names) }),
            ..engine
        },
        None => engine,
    }
}

/// A module was opened. If it was installed, the module it superseded is
/// retired and its own marker is validated. If not, it is retired itself and
/// the artifact is opened again.
pub open spec fn on_opened<H>(
    engine: EngineView<H>,
    name: Seq<char>,
    failures: u32,
    handle: H,
    image: Seq<u8>,
) -> Reply<H> {
    if artifact_symbols(image) is Some {
        Reply {
            retired: handle_of(engine),
            ..validate(after_opened(engine, handle, image), name, Pass::Reload)
        }
    } else {
        Reply {
            retired: Some(handle),
            ..reopen(engine, failures, ReloadError::MetadataUnreadable)
        }
    }
}

/// One step of the protocol for the function `name`, whose call site was
/// compiled with the signature hash `sighash` and whose slot holds
/// `callable`.
pub open spec fn step<H, F>(
    engine: EngineView<H>,
    callable: F,
    name: Seq<char>,
    sighash: u64,
    phase: Phase,
    event: EventView<H, F>,
) -> Step<H, F> {
    match (phase, event) {
        (Phase::Entry, EventView::Start) => Step {
            engine,
            callable,
            reply: on_start(engine, name),
        },
        (Phase::Validating(pass), EventView::Marker(value)) => Step {
            engine,
            callable,
            reply: on_marker(engine, name, sighash, pass, value),
        },
        (Phase::Swapping(pass), EventView::Implementation(found)) => Step {
            engine: synced(engine, name),
            callable: found,
            reply: on_implementation(engine, pass),
        },
        (Phase::Freshness(_), EventView::Modified(time)) => Step {
            engine: after_modified(engine, time),
            callable,
            reply: on_modified(engine, time),
        },
        (Phase::Freshness(failures), EventView::Unavailable) => Step {
            engine,
            callable,
            reply: on_unavailable(engine, failures),
        },
        (Phase::Opening(failures), EventView::Opened { handle, image }) => Step {
            engine: after_opened(engine, handle, image),
            callable,
            reply: on_opened(engine, name, failures, handle, image),
        },
        (Phase::Opening(failures), EventView::OpenFailed) => Step {
            engine,
            callable,
            reply: reopen(engine, failures, ReloadError::ModuleOpenFailed),
        },
        _ => Step { engine, callable, reply: halt(ReloadError::OutOfTurn) },
    }
}

/// Whether a step begins a reload: a newer artifact is seen.
pub open spec fn begins_reload<H, F>(engine: EngineView<H>, phase: Phase, event: EventView<H, F>)
    -> bool {
    phase is Freshness && event is Modified && is_newer(engine, event->Modified_0)
}

/// Ends the protocol with `error`.
fn halt_with<H>(error: ReloadError) -> (outcome: Outcome<H>)
    ensures
        outcome@ == halt::<H>(error),
{
    Outcome { phase: Phase::Failed, action: Action::Abort(error), retired: None }
}

/// Lets the call go through the slot.
fn let_proceed<H>() -> (outcome: Outcome<H>)
    ensures
        outcome@ == proceed::<H>(),
{
    Outcome { phase: Phase::Done, action: Action::Proceed, retired: None }
}

impl<H> Engine<H> {
    /// Looks up the signature marker of `name` in the loaded module.
    fn validate(&self, name: &str, pass: Pass) -> (outcome: Outcome<H>)
        ensures
            outcome@ == validate(self@, name@, pass),
    {
        match self.get_debuginfo() {
            Some(table) => match table.find(name, Role::Marker) {
                Some(i) => Outcome {
                    phase: Phase::Validating(pass),
                    action: Action::CallMarker(table.symbols[i].mangled.clone()),
                    retired: None,
                },
                None => halt_with(ReloadError::AbiMismatch),
            },
            None => halt_with(ReloadError::AbiMismatch),
        }
    }

    /// Asks for the artifact's modification time.
    fn check_freshness(&self) -> (outcome: Outcome<H>)
        ensures
            outcome@ == check_freshness(self@),
    {
        Outcome {
            phase: Phase::Freshness(0),
            action: Action::Stat(self.get_app_path()),
            retired: None,
        }
    }

    /// Begins the protocol for `name`.
    fn on_start(&self, name: &str) -> (outcome: Outcome<H>)
        requires
            self.wf(),
        ensures
            outcome@ == on_start(self@, name@),
    {
        if self.ledger.is_stale(name) && self.get_debuginfo().is_some() {
            self.validate(name, Pass::CatchUp)
        } else {
            self.check_freshness()
        }
    }

    /// Says what follows the swap of a bound implementation into the slot.
    fn on_implementation(&self, pass: Pass) -> (outcome: Outcome<H>)
        ensures
            outcome@ == on_implementation(self@, pass),
    {
        match pass {
            Pass::CatchUp => self.check_freshness(),
            Pass::Reload => let_proceed(),
        }
    }

    /// Records that the slot of `name` holds an implementation of the
    /// loaded module.
    fn sync(&mut self, name: &str)
        requires
            old(self).wf(),
        ensures
            final(self).wf(),
            final(self)@ == synced(old(self)@, name@),
    {
        let version = self.ledger.current();
        self.ledger.record_synced(name, version);
    }

    /// Looks up the implementation of `name` once its marker returned `value`.
    fn on_marker(&self, name: &str, sighash: u64, pass: Pass, value: u64) -> (outcome: Outcome<H>)
        ensures
            outcome@ == on_marker(self@, name@, sighash, pass, value),
    {
        if !valid_symbol(Some(value), sighash) {
            return halt_with(ReloadError::AbiMismatch);
        }
        match self.get_debuginfo() {
            Some(table) => match table.load_function(name) {
                Some(i) => Outcome {
                    phase: Phase::Swapping(pass),
                    action: Action::Resolve(table.symbols[i].mangled.clone()),
                    retired: None,
                },
                None => halt_with(ReloadError::SymbolNotFound),
            },
            None => halt_with(ReloadError::SymbolNotFound),
        }
    }

    /// Asks for the artifact to be opened again after a failure, or gives up.
    fn reopen(&self, failures: u32, error: ReloadError) -> (outcome: Outcome<H>)
        ensures
            outcome@ == reopen(self@, failures, error),
    {
        if exhausted(self.retry_limit, failures) {
            halt_with(error)
        } else {
            Outcome {
                phase: Phase::Opening(count_failure(failures)),
                action: Action::Open(self.get_app_path()),
                retired: None,
            }
        }
    }

    /// Asks for the modification time again after a failure, or gives up.
    fn on_unavailable(&self, failures: u32) -> (outcome: Outcome<H>)
        ensures
            outcome@ == on_unavailable(self@, failures),
    {
        if exhausted(self.retry_limit, failures) {
            halt_with(ReloadError::ArtifactUnavailable)
        } else {
            Outcome {
                phase: Phase::Freshness(count_failure(failures)),
                action: Action::Stat(self.get_app_path()),
                retired: None,
            }
        }
    }

    /// Begins a reload if the artifact, modified at `time`, is newer than
    /// what was seen.
    fn on_modified(&mut self, time: u128) -> (outcome: Outcome<H>)
        requires
            old(self).wf(),
            is_newer(old(self)@, time) ==> old(self)@.version < u64::MAX,
        ensures
            final(self).wf(),
            final(self)@ == after_modified(old(self)@, time),
            outcome@ == on_modified(old(self)@, time),
    {
        if time > self.last_modified {
            let path = self.get_app_path();
            self.last_modified = time;
            self.ledger.bump_global();
            Outcome { phase: Phase::Opening(0), action: Action::Open(path), retired: None }
        } else {
            let_proceed()
        }
    }

    /// Offers the module opened from the artifact with the bytes `image`.
    fn on_opened(&mut self, name: &str, failures: u32, handle: H, image: &[u8]) -> (outcome:
        Outcome<H>)
        requires
            old(self).wf(),
        ensures
            final(self).wf(),
            final(self)@ == after_opened(old(self)@, handle, image@),
            outcome@ == on_opened(old(self)@, name@, failures, handle, image@),
    {
        match self.modules.open_and_replace(handle, image) {
            Replaced::Installed { retired } => {
                let next = self.validate(name, Pass::Reload);
                Outcome { phase: next.phase, action: next.action, retired }
            },
            Replaced::Unreadable { rejected } => {
                let next = self.reopen(failures, ReloadError::MetadataUnreadable);
                Outcome { phase: next.phase, action: next.action, retired: Some(rejected) }
            },
        }
    }
}

/// Whether a poll that failed `failures` times in a row before is given up
/// when it fails again.
pub fn exhausted(limit: Option<u32>, failures: u32) -> (over: bool)
    ensures
        over == gives_up(limit, failures),
{
    match limit {
        Some(most) => failures >= most,
        None => false,
    }
}

/// The count of failures in a row after one more; it stops at the largest
/// number.
pub fn count_failure(failures: u32) -> (count: u32)
    ensures
        count == one_more(failures),
{
    if failures < u32::MAX {
        failures + 1
    } else {
        failures
    }
}

/// Whether a module is compatible with a call site compiled with the hash
/// `sighash`: `marker` is what its signature marker returned, `None` where
/// the module has no marker for the function.
pub fn valid_symbol(marker: Option<u64>, sighash: u64) -> (valid: bool)
    ensures
        valid == (marker == Some(sighash)),
{
    match marker {
        Some(value) => value == sighash,
        None => false,
    }
}

/// Runs one step of the reload protocol for the function `fn_name` declared
/// in `scope`, whose call site was compiled with the signature hash `sighash`
/// and calls through `slot`.
///
/// The first step of a call takes `Phase::Entry` and `Event::Start`. The
/// caller performs the action of each outcome, unloads a module that was
/// retired, and comes back in the outcome's phase with the event that the
/// action gave, until the action is `Proceed` or `Abort`.
pub fn __update_fn<H, F>(
    engine: &mut Engine<H>,
    fn_name: &str,
    scope: &str,
    sighash: u64,
    slot: &mut FunctionSlot<F>,
    phase: Phase,
    event: Event<H, F>,
) -> (outcome: Outcome<H>)
    requires
        old(engine).wf(),
        begins_reload(old(engine)@, phase, event@) ==> old(engine)@.version < u64::MAX,
    ensures
        final(engine).wf(),
        (Step { engine: final(engine)@, callable: final(slot).current(), reply: outcome@ }) == step(
            old(engine)@,
            old(slot).current(),
            qualified(scope@, fn_name@),
            sighash,
            phase,
            event@,
        ),
{
    let name = qualified_name(scope, fn_name);
    match (phase, event) {
        (Phase::Entry, Event::Start) => engine.on_start(name.as_str()),
        (Phase::Validating(pass), Event::Marker(value)) => engine.on_marker(
            name.as_str(),
            sighash,
            pass,
            value,
        ),
        (Phase::Swapping(pass), Event::Implementation(found)) => {
            let next = engine.on_implementation(pass);
            slot.replace(found);
            engine.sync(name.as_str());
            next
        },
        (Phase::Freshness(_), Event::Modified(time)) => engine.on_modified(time),
        (Phase::Freshness(failures), Event::Unavailable) => engine.on_unavailable(failures),
        (Phase::Opening(failures), Event::Opened { handle, image }) => engine.on_opened(
            name.as_str(),
            failures,
            handle,
            image.as_slice(),
        ),
        (Phase::Opening(failures), Event::OpenFailed) => engine.reopen(
            failures,
            ReloadError::ModuleOpenFailed,
        ),
        _ => halt_with(ReloadError::OutOfTurn),
    }
}

} // verus!
