use reloady::engine::{init2, Engine};
use reloady::supervisor::{build_features, get_exe_name, triggers_rebuild, Change};

#[test]
fn exe_lies_under_target_debug() {
    assert_eq!(get_exe_name("/work/demo", "demo"), "/work/demo/target/debug/demo");
}

#[test]
fn supervisor_and_engine_agree_on_the_artifact() {
    let engine: Engine<u32> = init2("demo", "/work/demo");
    assert_eq!(get_exe_name("/work/demo", "demo"), engine.get_app_path());
}

#[test]
fn stub_build_leaves_the_engine_out() {
    assert_eq!(build_features(true), "reloady/enabled");
    assert_eq!(build_features(false), "reloady/enabled,reloady/unstub");
}

#[test]
fn changes_to_files_trigger_a_rebuild() {
    assert!(triggers_rebuild(Change::Create));
    assert!(triggers_rebuild(Change::Write));
    assert!(triggers_rebuild(Change::Remove));
    assert!(triggers_rebuild(Change::Rename));
    assert!(triggers_rebuild(Change::Rescan));
    assert!(!triggers_rebuild(Change::Other));
}
