use reloady::engine::{init2, Engine};
use reloady::error::ReloadError;
use reloady::protocol::{
    __update_fn, count_failure, exhausted, valid_symbol, Action, Event, Pass, Phase,
};
use reloady::slot::FunctionSlot;

type Add = fn(i32, i32) -> i32;

fn built_in(a: i32, b: i32) -> i32 {
    a + b - 100
}

fn plain(a: i32, b: i32) -> i32 {
    a + b
}

fn bumped(a: i32, b: i32) -> i32 {
    a + b + 1
}

const ADD_BODY: &str = "_ZN3pkg13__add_fn_impl17h0123456789abcdefE";
const ADD_MARKER: &str = "_ZN3pkg30__add_fn_impl__reloady_sighash17h0123456789abcdefE";
const SUB_BODY: &str = "_ZN3pkg13__sub_fn_impl17h0123456789abcdefE";
const SUB_MARKER: &str = "_ZN3pkg30__sub_fn_impl__reloady_sighash17h0123456789abcdefE";
const PATH: &str = "/work/demo/target/debug/demo";
const H: u64 = 0x5157_0001;
const H2: u64 = 0x5157_0002;

fn image(symbols: &[&str]) -> Vec<u8> {
    let mut text = String::from("MODULE Linux x86_64 492E2DD23CC306CA9C494EEF1533A3810 crash\n");
    let mut address = 0x1000;
    for symbol in symbols {
        text.push_str(&format!("PUBLIC {:x} 0 {}\n", address, symbol));
        address += 0x10;
    }
    text.into_bytes()
}

/// What is on disk, and what the driver did.
struct World {
    modified: u128,
    symbols: Vec<&'static str>,
    marker: u64,
    body: Add,
    loaded: Option<(u32, u64, Add)>,
    opens: u32,
    closed: Vec<u32>,
    actions: Vec<Action>,
}

impl World {
    fn new(modified: u128, marker: u64, body: Add) -> World {
        World {
            modified,
            symbols: vec![ADD_MARKER, ADD_BODY, SUB_MARKER, SUB_BODY],
            marker,
            body,
            loaded: None,
            opens: 0,
            closed: Vec::new(),
            actions: Vec::new(),
        }
    }

    fn rebuild(&mut self, modified: u128, marker: u64, body: Add) {
        self.modified = modified;
        self.marker = marker;
        self.body = body;
    }
}

/// Runs the protocol for one call of `fn_name`, performing each action in
/// the world.
fn update(
    engine: &mut Engine<u32>,
    world: &mut World,
    fn_name: &str,
    sighash: u64,
    slot: &mut FunctionSlot<Add>,
) -> Result<(), ReloadError> {
    let mut phase = Phase::Entry;
    let mut event = Event::Start;
    loop {
        let outcome = __update_fn(engine, fn_name, "pkg", sighash, slot, phase, event);
        if let Some(handle) = outcome.retired {
            world.closed.push(handle);
        }
        world.actions.push(outcome.action.clone());
        phase = outcome.phase;
        event = match outcome.action {
            Action::CallMarker(_) => Event::Marker(world.loaded.unwrap().1),
            Action::Resolve(_) => Event::Implementation(world.loaded.unwrap().2),
            Action::Stat(_) => Event::Modified(world.modified),
            Action::Open(_) => {
                world.opens += 1;
                world.loaded = Some((world.opens, world.marker, world.body));
                Event::Opened { handle: world.opens, image: image(&world.symbols) }
            },
            Action::Proceed => return Ok(()),
            Action::Abort(error) => return Err(error),
        };
    }
}

#[test]
fn first_call_loads_the_module() {
    let mut engine: Engine<u32> = init2("demo", "/work/demo");
    let mut world = World::new(1_000, H, plain);
    let mut slot: FunctionSlot<Add> = FunctionSlot::new(built_in);
    assert_eq!(update(&mut engine, &mut world, "__add_fn_impl", H, &mut slot), Ok(()));
    assert_eq!(slot.with_current(|add| add(2, 3)), 5);
    assert_eq!(engine.version(), 1);
    assert_eq!(engine.last_modified, 1_000);
    assert_eq!(engine.ledger.recorded("pkg::__add_fn_impl"), Some(1));
    assert_eq!(engine.modules.current().unwrap().handle, 1);
    assert_eq!(world.opens, 1);
    assert!(world.closed.is_empty());
    assert_eq!(
        world.actions,
        vec![
            Action::Stat(PATH.to_string()),
            Action::Open(PATH.to_string()),
            Action::CallMarker(ADD_MARKER.to_string()),
            Action::Resolve(ADD_BODY.to_string()),
            Action::Proceed,
        ]
    );
}

#[test]
fn rebuild_with_the_same_signature_is_swapped_in() {
    let mut engine: Engine<u32> = init2("demo", "/work/demo");
    let mut world = World::new(1_000, H, plain);
    let mut slot: FunctionSlot<Add> = FunctionSlot::new(built_in);
    update(&mut engine, &mut world, "__add_fn_impl", H, &mut slot).unwrap();
    assert_eq!(slot.with_current(|add| add(2, 3)), 5);

    world.rebuild(2_000, H, bumped);
    world.actions.clear();
    assert_eq!(update(&mut engine, &mut world, "__add_fn_impl", H, &mut slot), Ok(()));
    assert_eq!(slot.with_current(|add| add(2, 3)), 6);
    assert_eq!(engine.version(), 2);
    assert_eq!(engine.last_modified, 2_000);
    assert_eq!(engine.ledger.recorded("pkg::__add_fn_impl"), Some(2));
    assert_eq!(engine.modules.current().unwrap().handle, 2);
    assert_eq!(world.closed, vec![1]);
    assert_eq!(
        world.actions,
        vec![
            Action::Stat(PATH.to_string()),
            Action::Open(PATH.to_string()),
            Action::CallMarker(ADD_MARKER.to_string()),
            Action::Resolve(ADD_BODY.to_string()),
            Action::Proceed,
        ]
    );
}

#[test]
fn rebuild_with_another_signature_aborts_without_a_swap() {
    let mut engine: Engine<u32> = init2("demo", "/work/demo");
    let mut world = World::new(1_000, H, plain);
    let mut slot: FunctionSlot<Add> = FunctionSlot::new(built_in);
    update(&mut engine, &mut world, "__add_fn_impl", H, &mut slot).unwrap();

    world.rebuild(2_000, H2, bumped);
    assert_eq!(
        update(&mut engine, &mut world, "__add_fn_impl", H, &mut slot),
        Err(ReloadError::AbiMismatch)
    );
    assert!(ReloadError::AbiMismatch.fatal());
    assert_eq!(slot.with_current(|add| add(2, 3)), 5);
    assert_eq!(engine.ledger.recorded("pkg::__add_fn_impl"), Some(1));
    assert_eq!(engine.version(), 2);
}

#[test]
fn first_load_with_another_signature_aborts_without_a_swap() {
    let mut engine: Engine<u32> = init2("demo", "/work/demo");
    let mut world = World::new(1_000, H2, plain);
    let mut slot: FunctionSlot<Add> = FunctionSlot::new(built_in);
    assert_eq!(
        update(&mut engine, &mut world, "__add_fn_impl", H, &mut slot),
        Err(ReloadError::AbiMismatch)
    );
    assert_eq!(slot.with_current(|add| add(2, 3)), -95);
    assert_eq!(engine.ledger.recorded("pkg::__add_fn_impl"), None);
}

#[test]
fn unchanged_artifact_is_a_no_op() {
    let mut engine: Engine<u32> = init2("demo", "/work/demo");
    let mut world = World::new(1_000, H, plain);
    let mut slot: FunctionSlot<Add> = FunctionSlot::new(built_in);
    update(&mut engine, &mut world, "__add_fn_impl", H, &mut slot).unwrap();

    // Whatever now lies on disk, with the old time nothing is opened.
    world.rebuild(1_000, H2, bumped);
    world.actions.clear();
    for _ in 0..3 {
        assert_eq!(update(&mut engine, &mut world, "__add_fn_impl", H, &mut slot), Ok(()));
    }
    assert_eq!(world.opens, 1);
    assert_eq!(engine.version(), 1);
    assert_eq!(slot.with_current(|add| add(2, 3)), 5);
    assert_eq!(
        world.actions,
        vec![
            Action::Stat(PATH.to_string()),
            Action::Proceed,
            Action::Stat(PATH.to_string()),
            Action::Proceed,
            Action::Stat(PATH.to_string()),
            Action::Proceed,
        ]
    );
}

#[test]
fn older_artifact_is_a_no_op() {
    let mut engine: Engine<u32> = init2("demo", "/work/demo");
    let mut world = World::new(1_000, H, plain);
    let mut slot: FunctionSlot<Add> = FunctionSlot::new(built_in);
    update(&mut engine, &mut world, "__add_fn_impl", H, &mut slot).unwrap();
    world.rebuild(999, H, bumped);
    assert_eq!(update(&mut engine, &mut world, "__add_fn_impl", H, &mut slot), Ok(()));
    assert_eq!(world.opens, 1);
    assert_eq!(engine.version(), 1);
    assert_eq!(engine.last_modified, 1_000);
    assert_eq!(slot.with_current(|add| add(2, 3)), 5);
}

#[test]
fn artifact_at_the_epoch_is_never_loaded() {
    let mut engine: Engine<u32> = init2("demo", "/work/demo");
    let mut world = World::new(0, H, plain);
    let mut slot: FunctionSlot<Add> = FunctionSlot::new(built_in);
    assert_eq!(update(&mut engine, &mut world, "__add_fn_impl", H, &mut slot), Ok(()));
    assert_eq!(world.opens, 0);
    assert_eq!(engine.version(), 0);
    assert_eq!(slot.with_current(|add| add(2, 3)), -95);
}

#[test]
fn stale_slot_catches_up_from_the_loaded_module() {
    let mut engine: Engine<u32> = init2("demo", "/work/demo");
    let mut world = World::new(1_000, H, plain);
    let mut add: FunctionSlot<Add> = FunctionSlot::new(built_in);
    let mut sub: FunctionSlot<Add> = FunctionSlot::new(built_in);
    update(&mut engine, &mut world, "__add_fn_impl", H, &mut add).unwrap();

    world.actions.clear();
    assert_eq!(update(&mut engine, &mut world, "__sub_fn_impl", H, &mut sub), Ok(()));
    assert_eq!(sub.with_current(|f| f(2, 3)), 5);
    assert_eq!(engine.ledger.recorded("pkg::__sub_fn_impl"), Some(1));
    assert_eq!(engine.version(), 1);
    assert_eq!(world.opens, 1);
    assert_eq!(
        world.actions,
        vec![
            Action::CallMarker(SUB_MARKER.to_string()),
            Action::Resolve(SUB_BODY.to_string()),
            Action::Stat(PATH.to_string()),
            Action::Proceed,
        ]
    );
}

#[test]
fn catch_up_with_another_signature_aborts() {
    let mut engine: Engine<u32> = init2("demo", "/work/demo");
    let mut world = World::new(1_000, H, plain);
    let mut add: FunctionSlot<Add> = FunctionSlot::new(built_in);
    let mut sub: FunctionSlot<Add> = FunctionSlot::new(built_in);
    update(&mut engine, &mut world, "__add_fn_impl", H, &mut add).unwrap();
    assert_eq!(
        update(&mut engine, &mut world, "__sub_fn_impl", H2, &mut sub),
        Err(ReloadError::AbiMismatch)
    );
    assert_eq!(sub.with_current(|f| f(2, 3)), -95);
    assert_eq!(engine.ledger.recorded("pkg::__sub_fn_impl"), None);
}

#[test]
fn module_without_the_marker_is_not_compatible() {
    let mut engine: Engine<u32> = init2("demo", "/work/demo");
    let mut world = World::new(1_000, H, plain);
    world.symbols = vec![ADD_BODY];
    let mut slot: FunctionSlot<Add> = FunctionSlot::new(built_in);
    assert_eq!(
        update(&mut engine, &mut world, "__add_fn_impl", H, &mut slot),
        Err(ReloadError::AbiMismatch)
    );
    assert_eq!(slot.with_current(|add| add(2, 3)), -95);
}

#[test]
fn module_without_the_body_has_no_symbol() {
    let mut engine: Engine<u32> = init2("demo", "/work/demo");
    let mut world = World::new(1_000, H, plain);
    world.symbols = vec![ADD_MARKER];
    let mut slot: FunctionSlot<Add> = FunctionSlot::new(built_in);
    assert_eq!(
        update(&mut engine, &mut world, "__add_fn_impl", H, &mut slot),
        Err(ReloadError::SymbolNotFound)
    );
    assert!(ReloadError::SymbolNotFound.fatal());
    assert_eq!(slot.with_current(|add| add(2, 3)), -95);
    assert_eq!(engine.ledger.recorded("pkg::__add_fn_impl"), None);
}

#[test]
fn version_grows_once_per_reload() {
    let mut engine: Engine<u32> = init2("demo", "/work/demo");
    let mut world = World::new(0, H, plain);
    let mut slot: FunctionSlot<Add> = FunctionSlot::new(built_in);
    let mut last = engine.version();
    for round in 1..=5u128 {
        world.rebuild(round * 10, H, plain);
        for _ in 0..3 {
            update(&mut engine, &mut world, "__add_fn_impl", H, &mut slot).unwrap();
            assert!(engine.version() >= last);
            last = engine.version();
            assert_eq!(engine.version(), round as u64);
            assert!(engine.ledger.recorded("pkg::__add_fn_impl").unwrap() <= engine.version());
        }
    }
    assert_eq!(world.opens, 5);
    assert_eq!(world.closed, vec![1, 2, 3, 4]);
}

#[test]
fn failed_stat_is_tried_again() {
    let mut engine: Engine<u32> = init2("demo", "/work/demo");
    let mut slot: FunctionSlot<Add> = FunctionSlot::new(built_in);
    let outcome = __update_fn(
        &mut engine,
        "__add_fn_impl",
        "pkg",
        H,
        &mut slot,
        Phase::Freshness(0),
        Event::Unavailable,
    );
    assert_eq!(outcome.phase, Phase::Freshness(1));
    assert_eq!(outcome.action, Action::Stat(PATH.to_string()));
    let outcome = __update_fn(
        &mut engine,
        "__add_fn_impl",
        "pkg",
        H,
        &mut slot,
        Phase::Freshness(u32::MAX),
        Event::Unavailable,
    );
    assert_eq!(outcome.phase, Phase::Freshness(u32::MAX));
    assert_eq!(outcome.action, Action::Stat(PATH.to_string()));
}

#[test]
fn failed_open_is_tried_again() {
    let mut engine: Engine<u32> = init2("demo", "/work/demo");
    let mut slot: FunctionSlot<Add> = FunctionSlot::new(built_in);
    let outcome = __update_fn(
        &mut engine,
        "__add_fn_impl",
        "pkg",
        H,
        &mut slot,
        Phase::Opening(4),
        Event::OpenFailed,
    );
    assert_eq!(outcome.phase, Phase::Opening(5));
    assert_eq!(outcome.action, Action::Open(PATH.to_string()));
    assert_eq!(outcome.retired, None);
}

#[test]
fn bounded_polls_give_up() {
    let mut engine: Engine<u32> = init2("demo", "/work/demo");
    engine.bound_retries(2);
    let mut slot: FunctionSlot<Add> = FunctionSlot::new(built_in);
    let outcome = __update_fn(
        &mut engine,
        "__add_fn_impl",
        "pkg",
        H,
        &mut slot,
        Phase::Opening(1),
        Event::OpenFailed,
    );
    assert_eq!(outcome.phase, Phase::Opening(2));
    let outcome = __update_fn(
        &mut engine,
        "__add_fn_impl",
        "pkg",
        H,
        &mut slot,
        Phase::Opening(2),
        Event::OpenFailed,
    );
    assert_eq!(outcome.phase, Phase::Failed);
    assert_eq!(outcome.action, Action::Abort(ReloadError::ModuleOpenFailed));
    assert!(!ReloadError::ModuleOpenFailed.fatal());
    let outcome = __update_fn(
        &mut engine,
        "__add_fn_impl",
        "pkg",
        H,
        &mut slot,
        Phase::Freshness(2),
        Event::Unavailable,
    );
    assert_eq!(outcome.action, Action::Abort(ReloadError::ArtifactUnavailable));
    let outcome = __update_fn(
        &mut engine,
        "__add_fn_impl",
        "pkg",
        H,
        &mut slot,
        Phase::Opening(2),
        Event::Opened { handle: 9, image: b"half-written".to_vec() },
    );
    assert_eq!(outcome.action, Action::Abort(ReloadError::MetadataUnreadable));
    assert_eq!(outcome.retired, Some(9));
    assert!(!ReloadError::MetadataUnreadable.fatal());
}

#[test]
fn unreadable_artifact_is_opened_again() {
    let mut engine: Engine<u32> = init2("demo", "/work/demo");
    let mut slot: FunctionSlot<Add> = FunctionSlot::new(built_in);
    let outcome = __update_fn(
        &mut engine,
        "__add_fn_impl",
        "pkg",
        H,
        &mut slot,
        Phase::Opening(0),
        Event::Opened { handle: 9, image: b"half-written".to_vec() },
    );
    assert_eq!(outcome.phase, Phase::Opening(1));
    assert_eq!(outcome.action, Action::Open(PATH.to_string()));
    assert_eq!(outcome.retired, Some(9));
    assert!(engine.modules.current().is_none());
}

#[test]
fn event_out_of_turn_changes_nothing() {
    let mut engine: Engine<u32> = init2("demo", "/work/demo");
    let mut slot: FunctionSlot<Add> = FunctionSlot::new(built_in);
    let outcome = __update_fn(
        &mut engine,
        "__add_fn_impl",
        "pkg",
        H,
        &mut slot,
        Phase::Entry,
        Event::Implementation(plain as Add),
    );
    assert_eq!(outcome.phase, Phase::Failed);
    assert_eq!(outcome.action, Action::Abort(ReloadError::OutOfTurn));
    assert_eq!(slot.with_current(|add| add(2, 3)), -95);
    let outcome = __update_fn(
        &mut engine,
        "__add_fn_impl",
        "pkg",
        H,
        &mut slot,
        Phase::Done,
        Event::Modified(5),
    );
    assert_eq!(outcome.action, Action::Abort(ReloadError::OutOfTurn));
    assert_eq!(engine.version(), 0);
    assert_eq!(engine.last_modified, 0);
    assert!(!ReloadError::OutOfTurn.fatal());
}

#[test]
fn mismatch_in_either_pass_keeps_the_slot() {
    for pass in [Pass::CatchUp, Pass::Reload] {
        let mut engine: Engine<u32> = init2("demo", "/work/demo");
        let mut slot: FunctionSlot<Add> = FunctionSlot::new(built_in);
        let outcome = __update_fn(
            &mut engine,
            "__add_fn_impl",
            "pkg",
            H,
            &mut slot,
            Phase::Validating(pass),
            Event::Marker(H2),
        );
        assert_eq!(outcome.phase, Phase::Failed);
        assert_eq!(outcome.action, Action::Abort(ReloadError::AbiMismatch));
        assert_eq!(slot.with_current(|add| add(2, 3)), -95);
        assert_eq!(engine.ledger.recorded("pkg::__add_fn_impl"), None);
    }
}

#[test]
fn valid_symbol_wants_the_same_hash() {
    assert!(valid_symbol(Some(H), H));
    assert!(!valid_symbol(Some(H2), H));
    assert!(!valid_symbol(None, H));
    assert!(valid_symbol(Some(0), 0));
}

#[test]
fn failures_are_counted_up_to_the_limit() {
    assert!(!exhausted(None, 0));
    assert!(!exhausted(None, u32::MAX));
    assert!(exhausted(Some(0), 0));
    assert!(!exhausted(Some(3), 2));
    assert!(exhausted(Some(3), 3));
    assert!(exhausted(Some(3), 4));
    assert_eq!(count_failure(0), 1);
    assert_eq!(count_failure(u32::MAX - 1), u32::MAX);
    assert_eq!(count_failure(u32::MAX), u32::MAX);
}
