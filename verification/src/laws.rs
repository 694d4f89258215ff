//! What holds of the engine whatever the artifact, the symbol table and the
//! order of events.

use vstd::prelude::*;
use crate::debuginfo::{
    artifact_symbols, plays, resolve, resolve_from, symbol_table, Role, SymbolView,
};
use crate::engine::EngineView;
use crate::error::ReloadError;
use crate::module::ModuleView;
use crate::protocol::{
    begins_reload, handle_of, step, table_of, ActionView, EventView, Pass, Phase, Reply, Step,
};
use crate::text::{
    any_marked, is_marker_path, lemma_any_marked_cons, marker_of, marker_suffix, separator_at,
    split_from,
};

verus! {

/// The marker suffix holds no colon.
pub proof fn lemma_suffix_has_no_colon()
    ensures
        marker_suffix().len() == 17,
        forall|j: int| 0 <= j < marker_suffix().len() ==> marker_suffix()[j] != ':',
{
    reveal_strlit("__reloady_sighash");
}

/// Reading on from `pos` within a segment that began at `start`, the split
/// reaches a segment that ends at `end`, where the marker suffix ends.
proof fn lemma_split_reaches(s: Seq<char>, start: int, pos: int, end: int)
    requires
        0 <= start <= pos <= end <= s.len(),
        start <= end - marker_suffix().len(),
        marker_suffix() == s.subrange(end - marker_suffix().len(), end),
        end == s.len() || separator_at(s, end),
    ensures
        any_marked(split_from(s, start, pos)),
    decreases s.len() - pos,
{
    lemma_suffix_has_no_colon();
    let k = marker_suffix().len() as int;
    assert forall|j: int| end - k <= j < end implies s[j] != ':' by {
        assert(s[j] == s.subrange(end - k, end)[j - (end - k)]);
    }
    if pos >= s.len() {
        let segment = s.subrange(start, s.len() as int);
        assert(marker_suffix() =~= segment.subrange(segment.len() - k, segment.len() as int));
        assert(split_from(s, start, pos)[0] == segment);
    } else if separator_at(s, pos) {
        let segment = s.subrange(start, pos);
        lemma_any_marked_cons(segment, split_from(s, pos + 2, pos + 2));
        if pos == end {
            assert(marker_suffix() =~= segment.subrange(segment.len() - k, segment.len() as int));
        } else {
            lemma_split_reaches(s, pos + 2, pos + 2, end);
        }
    } else {
        lemma_split_reaches(s, start, pos + 1, end);
    }
}

/// A name in which the marker suffix is followed by the end or by `::` is a
/// marker path.
pub proof fn lemma_suffix_marks_path(s: Seq<char>, end: int)
    requires
        marker_suffix().len() <= end <= s.len(),
        marker_suffix() == s.subrange(end - marker_suffix().len(), end),
        end == s.len() || separator_at(s, end),
    ensures
        is_marker_path(s),
{
    lemma_split_reaches(s, 0, 0, end);
}

/// Every segment that the split reads from `pos` on, within a segment that
/// began at `start`, ends at the end of the text or before a separator.
proof fn lemma_split_ends(s: Seq<char>, start: int, pos: int)
    requires
        0 <= start <= pos <= s.len(),
        any_marked(split_from(s, start, pos)),
    ensures
        exists|end: int| is_marked_end(s, end),
    decreases s.len() - pos,
{
    let k = marker_suffix().len() as int;
    if pos >= s.len() {
        let segment = s.subrange(start, s.len() as int);
        lemma_any_marked_cons(segment, Seq::empty());
        assert(seq![segment] + Seq::<Seq<char>>::empty() =~= seq![segment]);
        assert(marker_suffix() =~= s.subrange(s.len() - k, s.len() as int));
        assert(is_marked_end(s, s.len() as int));
    } else if separator_at(s, pos) {
        let segment = s.subrange(start, pos);
        lemma_any_marked_cons(segment, split_from(s, pos + 2, pos + 2));
        if marker_suffix().is_suffix_of(segment) {
            assert(marker_suffix() =~= s.subrange(pos - k, pos));
            assert(is_marked_end(s, pos));
        } else {
            lemma_split_ends(s, pos + 2, pos + 2);
        }
    } else {
        lemma_split_ends(s, start, pos + 1);
    }
}

/// Whether the marker suffix ends at `end` in `s`, at the end of the text or
/// before a separator.
pub open spec fn is_marked_end(s: Seq<char>, end: int) -> bool {
    &&& marker_suffix().len() <= end <= s.len()
    &&& marker_suffix() == s.subrange(end - marker_suffix().len(), end)
    &&& (end == s.len() || separator_at(s, end))
}

/// A name is a marker path exactly where the marker suffix stands in it
/// before the end or before a separator.
pub proof fn lemma_marker_path_is_marked_end(s: Seq<char>)
    ensures
        is_marker_path(s) == exists|end: int| is_marked_end(s, end),
{
    if is_marker_path(s) {
        lemma_split_ends(s, 0, 0);
    }
    if exists|end: int| is_marked_end(s, end) {
        let end = choose|end: int| is_marked_end(s, end);
        lemma_suffix_marks_path(s, end);
    }
}

/// Whether `rest` can follow a symbol's path: nothing, or further segments.
pub open spec fn continues_path(rest: Seq<char>) -> bool {
    rest.len() == 0 || separator_at(rest, 0)
}

/// The symbol of the marker of any function, with or without further
/// segments behind it, is a marker path.
pub proof fn lemma_marker_symbol_is_marker_path(name: Seq<char>, rest: Seq<char>)
    requires
        continues_path(rest),
    ensures
        is_marker_path(marker_of(name) + rest),
{
    let s = marker_of(name) + rest;
    let end = marker_of(name).len() as int;
    assert(marker_suffix() =~= s.subrange(end - marker_suffix().len(), end));
    if rest.len() > 0 {
        assert(s[end] == rest[0]);
        assert(s[end + 1] == rest[1]);
    }
    lemma_suffix_marks_path(s, end);
}

/// A lookup from `from` on finds the first symbol that plays the role, and
/// finds none only where none plays it.
pub proof fn lemma_resolve_from_first(
    table: Seq<SymbolView>,
    name: Seq<char>,
    role: Role,
    from: int,
)
    requires
        0 <= from,
    ensures
        match resolve_from(table, name, role, from) {
            Some(i) => from <= i < table.len() && plays(table[i], name, role) && forall|j: int|
                from <= j < i ==> !plays(#[trigger] table[j], name, role),
            None => forall|j: int|
                from <= j < table.len() ==> !plays(#[trigger] table[j], name, role),
        },
    decreases table.len() - from,
{
    if from < table.len() && !plays(table[from], name, role) {
        lemma_resolve_from_first(table, name, role, from + 1);
    }
}

/// A lookup finds the first symbol in table order that plays the role, and
/// finds none only where none plays it.
pub proof fn lemma_resolve_first(table: Seq<SymbolView>, name: Seq<char>, role: Role)
    ensures
        match resolve(table, name, role) {
            Some(i) => 0 <= i < table.len() && plays(table[i], name, role) && forall|j: int|
                0 <= j < i ==> !plays(#[trigger] table[j], name, role),
            None => forall|j: int| 0 <= j < table.len() ==> !plays(#[trigger] table[j], name, role),
        },
{
    lemma_resolve_from_first(table, name, role, 0);
}

/// The symbol of a marker is never taken for an implementation: whatever the
/// table and the name looked up, the lookup of an implementation does not
/// select a symbol that is the marker of some function.
pub proof fn lemma_marker_never_selected(
    table: Seq<SymbolView>,
    name: Seq<char>,
    at: int,
    marked: Seq<char>,
    rest: Seq<char>,
)
    requires
        0 <= at < table.len(),
        table[at].demangled == marker_of(marked) + rest,
        continues_path(rest),
    ensures
        resolve(table, name, Role::Implementation) != Some(at),
{
    lemma_marker_symbol_is_marker_path(marked, rest);
    lemma_resolve_first(table, name, Role::Implementation);
}

/// The symbol of a function's body is never taken for its marker: the
/// lookup of the marker of `name` does not select a symbol whose readable
/// name is `name`, with or without further segments behind it.
pub proof fn lemma_body_never_selected_as_marker(
    table: Seq<SymbolView>,
    name: Seq<char>,
    at: int,
    rest: Seq<char>,
)
    requires
        0 <= at < table.len(),
        table[at].demangled == name + rest,
        continues_path(rest),
    ensures
        resolve(table, name, Role::Marker) != Some(at),
{
    lemma_suffix_has_no_colon();
    lemma_resolve_first(table, name, Role::Marker);
    let whole = name + rest;
    if marker_of(name).is_prefix_of(whole) {
        let head = whole.subrange(0, marker_of(name).len() as int);
        assert(head[name.len() as int] == marker_suffix()[0]);
        assert(head[name.len() as int] == rest[0]);
    }
}

/// In a table that holds both the implementation of a function and its
/// marker, in either order, the lookup of the implementation selects a
/// symbol that is no marker path, at the implementation's place or before.
pub proof fn lemma_both_forms(table: Seq<SymbolView>, name: Seq<char>, body: int, marker: int)
    requires
        0 <= body < table.len(),
        0 <= marker < table.len(),
        name.is_prefix_of(table[body].demangled),
        !is_marker_path(table[body].demangled),
        marker_of(name).is_prefix_of(table[marker].demangled),
        is_marker_path(table[marker].demangled),
    ensures
        resolve(table, name, Role::Implementation) is Some,
        resolve(table, name, Role::Implementation).unwrap() <= body,
        resolve(table, name, Role::Implementation).unwrap() != marker,
        !is_marker_path(table[resolve(table, name, Role::Implementation).unwrap()].demangled),
{
    lemma_resolve_first(table, name, Role::Implementation);
    assert(plays(table[body], name, Role::Implementation));
}

/// A step moves the global version on by one where it begins a reload, and
/// leaves it as it is everywhere else.
pub proof fn lemma_version_moves_with_reloads<H, F>(
    engine: EngineView<H>,
    callable: F,
    name: Seq<char>,
    sighash: u64,
    phase: Phase,
    event: EventView<H, F>,
)
    requires
        begins_reload(engine, phase, event) ==> engine.version < u64::MAX,
    ensures
        step(engine, callable, name, sighash, phase, event).engine.version == engine.version + (
        if begins_reload(engine, phase, event) {
            1int
        } else {
            0int
        }),
{
}

/// A step keeps every recorded version at or below the global version.
pub proof fn lemma_step_keeps_bound<H, F>(
    engine: EngineView<H>,
    callable: F,
    name: Seq<char>,
    sighash: u64,
    phase: Phase,
    event: EventView<H, F>,
)
    requires
        engine.bounded(),
        begins_reload(engine, phase, event) ==> engine.version < u64::MAX,
    ensures
        step(engine, callable, name, sighash, phase, event).engine.bounded(),
{
    let next = step(engine, callable, name, sighash, phase, event).engine;
    assert forall|other: Seq<char>| #[trigger] next.synced.contains_key(other) implies next.synced[other]
        <= next.version by {
        if engine.synced.contains_key(other) {
            assert(engine.synced[other] <= engine.version);
        }
    }
}

/// A marker value other than the hash of the call site ends the protocol
/// with an ABI mismatch: the slot keeps its callable, and the engine is as
/// it was.
pub proof fn lemma_mismatch_changes_nothing<H, F>(
    engine: EngineView<H>,
    callable: F,
    name: Seq<char>,
    sighash: u64,
    pass: Pass,
    value: u64,
)
    requires
        value != sighash,
    ensures
        step(engine, callable, name, sighash, Phase::Validating(pass), EventView::Marker(value))
            == (Step {
            engine,
            callable,
            reply: Reply {
                phase: Phase::Failed,
                action: ActionView::Abort(ReloadError::AbiMismatch),
                retired: None,
            },
        }),
{
}

/// A step that aborts swaps nothing: the slot keeps its callable, no version
/// is recorded and the global version stays.
pub proof fn lemma_abort_swaps_nothing<H, F>(
    engine: EngineView<H>,
    callable: F,
    name: Seq<char>,
    sighash: u64,
    phase: Phase,
    event: EventView<H, F>,
)
    requires
        step(engine, callable, name, sighash, phase, event).reply.action is Abort,
    ensures
        step(engine, callable, name, sighash, phase, event).callable == callable,
        step(engine, callable, name, sighash, phase, event).engine.synced == engine.synced,
        step(engine, callable, name, sighash, phase, event).engine.version == engine.version,
        step(engine, callable, name, sighash, phase, event).reply.phase == Phase::Failed,
{
}

/// Only the step that takes the bound implementation changes the slot, and
/// it is reached only from a marker value equal to the hash of the call
/// site: a step in another phase, or on another event, keeps the callable.
pub proof fn lemma_swap_only_when_swapping<H, F>(
    engine: EngineView<H>,
    callable: F,
    name: Seq<char>,
    sighash: u64,
    phase: Phase,
    event: EventView<H, F>,
)
    requires
        !(phase is Swapping && event is Implementation),
    ensures
        step(engine, callable, name, sighash, phase, event).callable == callable,
        step(engine, callable, name, sighash, phase, event).engine.synced == engine.synced,
        step(engine, callable, name, sighash, phase, event).reply.phase is Swapping ==> phase
            is Validating && event == EventView::<H, F>::Marker(sighash),
{
}

/// Where the artifact is no newer than what was seen, looking at it changes
/// nothing: no module is to be opened, the version stays, and the call
/// proceeds.
pub proof fn lemma_unchanged_artifact_is_no_op<H, F>(
    engine: EngineView<H>,
    callable: F,
    name: Seq<char>,
    sighash: u64,
    failures: u32,
    time: u128,
)
    requires
        time <= engine.last_modified,
    ensures
        step(engine, callable, name, sighash, Phase::Freshness(failures), EventView::Modified(time))
            == (Step {
            engine,
            callable,
            reply: Reply { phase: Phase::Done, action: ActionView::Proceed, retired: None },
        }),
{
}

/// What one step is given besides the engine.
pub struct Input<H, F> {
    pub callable: F,
    pub name: Seq<char>,
    pub sighash: u64,
    pub phase: Phase,
    pub event: EventView<H, F>,
}

/// The engine after the steps on `inputs`, in their order, whatever call
/// sites they come from and whatever phases they claim.
pub open spec fn run<H, F>(engine: EngineView<H>, inputs: Seq<Input<H, F>>) -> EngineView<H>
    decreases inputs.len(),
{
    if inputs.len() == 0 {
        engine
    } else {
        let last = inputs.last();
        step(
            run(engine, inputs.drop_last()),
            last.callable,
            last.name,
            last.sighash,
            last.phase,
            last.event,
        ).engine
    }
}

/// How many of the steps on `inputs` begin a reload.
pub open spec fn reloads_begun<H, F>(engine: EngineView<H>, inputs: Seq<Input<H, F>>) -> nat
    decreases inputs.len(),
{
    if inputs.len() == 0 {
        0
    } else {
        let before = run(engine, inputs.drop_last());
        let last = inputs.last();
        reloads_begun(engine, inputs.drop_last()) + (if begins_reload(
            before,
            last.phase,
            last.event,
        ) {
            1nat
        } else {
            0nat
        })
    }
}

/// No more reloads begin in the first `k` steps than in all of them.
pub proof fn lemma_reloads_begun_grows<H, F>(
    engine: EngineView<H>,
    inputs: Seq<Input<H, F>>,
    k: int,
)
    requires
        0 <= k <= inputs.len(),
    ensures
        reloads_begun(engine, inputs.take(k)) <= reloads_begun(engine, inputs),
    decreases inputs.len(),
{
    if k == inputs.len() {
        assert(inputs.take(k) =~= inputs);
    } else {
        assert(inputs.drop_last().take(k) =~= inputs.take(k));
        lemma_reloads_begun_grows(engine, inputs.drop_last(), k);
    }
}

/// Over any sequence of steps the global version grows by exactly the number
/// of reloads begun.
pub proof fn lemma_version_counts_reloads<H, F>(engine: EngineView<H>, inputs: Seq<Input<H, F>>)
    requires
        engine.version + reloads_begun(engine, inputs) <= u64::MAX,
    ensures
        run(engine, inputs).version == engine.version + reloads_begun(engine, inputs),
    decreases inputs.len(),
{
    if inputs.len() > 0 {
        let last = inputs.last();
        lemma_version_counts_reloads(engine, inputs.drop_last());
        lemma_version_moves_with_reloads(
            run(engine, inputs.drop_last()),
            last.callable,
            last.name,
            last.sighash,
            last.phase,
            last.event,
        );
    }
}

/// Over any sequence of steps the global version never decreases: after the
/// first `k` steps it is at most what it is after all of them.
pub proof fn lemma_version_never_decreases<H, F>(
    engine: EngineView<H>,
    inputs: Seq<Input<H, F>>,
    k: int,
)
    requires
        0 <= k <= inputs.len(),
        engine.version + reloads_begun(engine, inputs) <= u64::MAX,
    ensures
        run(engine, inputs.take(k)).version <= run(engine, inputs).version,
{
    lemma_reloads_begun_grows(engine, inputs, k);
    lemma_version_counts_reloads(engine, inputs.take(k));
    lemma_version_counts_reloads(engine, inputs);
}

/// Over any sequence of steps no recorded version exceeds the global
/// version.
pub proof fn lemma_run_keeps_bound<H, F>(engine: EngineView<H>, inputs: Seq<Input<H, F>>)
    requires
        engine.bounded(),
        engine.version + reloads_begun(engine, inputs) <= u64::MAX,
    ensures
        run(engine, inputs).bounded(),
    decreases inputs.len(),
{
    if inputs.len() > 0 {
        let last = inputs.last();
        lemma_run_keeps_bound(engine, inputs.drop_last());
        lemma_version_counts_reloads(engine, inputs.drop_last());
        lemma_step_keeps_bound(
            run(engine, inputs.drop_last()),
            last.callable,
            last.name,
            last.sighash,
            last.phase,
            last.event,
        );
    }
}

/// Where one call stands in the protocol: the engine, the callable in the
/// slot and the phase.
pub struct Position<H, F> {
    pub engine: EngineView<H>,
    pub callable: F,
    pub phase: Phase,
}

/// Where a call stands after the `events`, each taken in the phase that the
/// step before it gave.
pub open spec fn follow<H, F>(
    start: Position<H, F>,
    name: Seq<char>,
    sighash: u64,
    events: Seq<EventView<H, F>>,
) -> Position<H, F>
    decreases events.len(),
{
    if events.len() == 0 {
        start
    } else {
        let before = follow(start, name, sighash, events.drop_last());
        let next = step(
            before.engine,
            before.callable,
            name,
            sighash,
            before.phase,
            events.last(),
        );
        Position { engine: next.engine, callable: next.callable, phase: next.reply.phase }
    }
}

/// How far a phase is along the protocol.
pub open spec fn rank(phase: Phase) -> nat {
    match phase {
        Phase::Entry => 0,
        Phase::Validating(Pass::CatchUp) => 1,
        Phase::Swapping(Pass::CatchUp) => 2,
        Phase::Freshness(_) => 3,
        Phase::Opening(_) => 4,
        Phase::Validating(Pass::Reload) => 5,
        Phase::Swapping(Pass::Reload) => 6,
        Phase::Done => 7,
        Phase::Failed => 7,
    }
}

/// The protocol never goes back: a step gives a phase that is at least as
/// far along as the one it was taken in, and further along where it begins
/// a reload.
pub proof fn lemma_step_goes_on<H, F>(
    engine: EngineView<H>,
    callable: F,
    name: Seq<char>,
    sighash: u64,
    phase: Phase,
    event: EventView<H, F>,
)
    ensures
        rank(phase) <= rank(step(engine, callable, name, sighash, phase, event).reply.phase),
        begins_reload(engine, phase, event) ==> rank(phase) < rank(
            step(engine, callable, name, sighash, phase, event).reply.phase,
        ),
{
}

/// One call begins one reload at most: whatever events come in, the global
/// version after them is the one before or the next, and it is the one
/// before as long as the call has not gone past looking at the artifact.
pub proof fn lemma_call_reloads_once_at_most<H, F>(
    start: Position<H, F>,
    name: Seq<char>,
    sighash: u64,
    events: Seq<EventView<H, F>>,
)
    requires
        start.engine.version < u64::MAX,
    ensures
        rank(start.phase) <= rank(follow(start, name, sighash, events).phase),
        start.engine.version <= follow(start, name, sighash, events).engine.version
            <= start.engine.version + 1,
        rank(follow(start, name, sighash, events).phase) <= 3 ==> follow(
            start,
            name,
            sighash,
            events,
        ).engine.version == start.engine.version,
    decreases events.len(),
{
    if events.len() > 0 {
        let before = follow(start, name, sighash, events.drop_last());
        lemma_call_reloads_once_at_most(start, name, sighash, events.drop_last());
        lemma_step_goes_on(
            before.engine,
            before.callable,
            name,
            sighash,
            before.phase,
            events.last(),
        );
    }
}

/// With an artifact that is no newer than what was seen, a stale slot still
/// catches up from the loaded module: the marker is validated, the
/// implementation goes into the slot and the slot is synced, while no module
/// is opened and the version stays.
pub proof fn lemma_stale_slot_catches_up<H, F>(
    engine: EngineView<H>,
    callable: F,
    name: Seq<char>,
    sighash: u64,
    found: F,
    time: u128,
    marker: int,
    body: int,
)
    requires
        engine.stale(name),
        engine.module is Some,
        resolve(table_of(engine), name, Role::Marker) == Some(marker),
        resolve(table_of(engine), name, Role::Implementation) == Some(body),
        time <= engine.last_modified,
    ensures
        ({
            let first = step(engine, callable, name, sighash, Phase::Entry, EventView::Start);
            let second = step(
                first.engine,
                first.callable,
                name,
                sighash,
                first.reply.phase,
                EventView::Marker(sighash),
            );
            let third = step(
                second.engine,
                second.callable,
                name,
                sighash,
                second.reply.phase,
                EventView::Implementation(found),
            );
            let fourth = step(
                third.engine,
                third.callable,
                name,
                sighash,
                third.reply.phase,
                EventView::Modified(time),
            );
            &&& first.reply.action == ActionView::CallMarker(table_of(engine)[marker].mangled)
            &&& second.reply.action == ActionView::Resolve(table_of(engine)[body].mangled)
            &&& second.callable == callable
            &&& third.reply.action == ActionView::Stat(engine.artifact())
            &&& fourth.reply.action == ActionView::Proceed
            &&& fourth.reply.phase == Phase::Done
            &&& fourth.callable == found
            &&& fourth.engine == (EngineView {
                synced: engine.synced.insert(name, engine.version),
                ..engine
            })
            &&& !fourth.engine.stale(name)
        }),
{
}

/// A reload that succeeds moves the version on once and swaps once: from a
/// newer artifact with a readable symbol table that holds the marker and the
/// implementation, and a marker value equal to the hash of the call site,
/// the protocol installs the module, retires the one before, puts the
/// implementation into the slot and syncs the slot to the new version. The
/// slot keeps its callable until that last step.
pub proof fn lemma_reload_swaps_once<H, F>(
    engine: EngineView<H>,
    callable: F,
    name: Seq<char>,
    sighash: u64,
    failures: u32,
    time: u128,
    handle: H,
    image: Seq<u8>,
    found: F,
)
    requires
        time > engine.last_modified,
        engine.version < u64::MAX,
        artifact_symbols(image) is Some,
        resolve(symbol_table(artifact_symbols(image).unwrap()), name, Role::Marker) is Some,
        resolve(symbol_table(artifact_symbols(image).unwrap()), name, Role::Implementation)
            is Some,
    ensures
        ({
            let table = symbol_table(artifact_symbols(image).unwrap());
            let first = step(
                engine,
                callable,
                name,
                sighash,
                Phase::Freshness(failures),
                EventView::Modified(time),
            );
            let second = step(
                first.engine,
                first.callable,
                name,
                sighash,
                first.reply.phase,
                EventView::Opened { handle, image },
            );
            let third = step(
                second.engine,
                second.callable,
                name,
                sighash,
                second.reply.phase,
                EventView::Marker(sighash),
            );
            let fourth = step(
                third.engine,
                third.callable,
                name,
                sighash,
                third.reply.phase,
                EventView::Implementation(found),
            );
            &&& first.reply.action == ActionView::Open(engine.artifact())
            &&& second.reply.action == ActionView::CallMarker(
                table[resolve(table, name, Role::Marker).unwrap()].mangled,
            )
            &&& second.reply.retired == handle_of(engine)
            &&& third.reply.action == ActionView::Resolve(
                table[resolve(table, name, Role::Implementation).unwrap()].mangled,
            )
            &&& third.callable == callable
            &&& fourth.reply.action == ActionView::Proceed
            &&& fourth.reply.phase == Phase::Done
            &&& fourth.callable == found
            &&& fourth.engine == (EngineView {
                last_modified: time,
                version: (engine.version + 1) as u64,
                synced: engine.synced.insert(name, (engine.version + 1) as u64),
                module: Some(ModuleView { handle, table }),
                ..engine
            })
        }),
{
}

} // verus!
