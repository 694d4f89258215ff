use reloady::engine::{init2, Engine};

#[test]
fn init2_sets_the_names() {
    let engine: Engine<u32> = init2("demo", "/work/demo");
    assert_eq!(engine.crate_name(), "demo");
    assert_eq!(engine.manifest_dir(), "/work/demo");
}

#[test]
fn init2_starts_with_nothing_loaded() {
    let engine: Engine<u32> = init2("demo", "/work/demo");
    assert_eq!(engine.version(), 0);
    assert_eq!(engine.last_modified, 0);
    assert_eq!(engine.retry_limit, None);
    assert!(engine.get_debuginfo().is_none());
    assert!(engine.modules.current().is_none());
    assert_eq!(engine.ledger.recorded("demo::f"), None);
}

#[test]
fn artifact_lies_under_target_debug() {
    let engine: Engine<u32> = init2("demo", "/work/demo");
    assert_eq!(engine.get_app_path(), "/work/demo/target/debug/demo");
    assert_eq!(engine.get_dbg_path(), "/work/demo/target/debug/demo");
}

#[test]
fn artifact_path_of_empty_names() {
    let engine: Engine<u32> = init2("", "");
    assert_eq!(engine.get_app_path(), "/target/debug/");
}

#[test]
fn bound_retries_sets_the_limit() {
    let mut engine: Engine<u32> = init2("demo", "/work/demo");
    engine.bound_retries(3);
    assert_eq!(engine.retry_limit, Some(3));
    assert_eq!(engine.version(), 0);
    assert_eq!(engine.get_app_path(), "/work/demo/target/debug/demo");
}
