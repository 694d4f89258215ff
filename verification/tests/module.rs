use reloady::debuginfo::DemangledSymbol;
use reloady::module::{ModuleManager, Replaced};

fn image(symbols: &[&str]) -> Vec<u8> {
    let mut text = String::from("MODULE Linux x86_64 492E2DD23CC306CA9C494EEF1533A3810 crash\n");
    let mut address = 0x1000;
    for symbol in symbols {
        text.push_str(&format!("PUBLIC {:x} 0 {}\n", address, symbol));
        address += 0x10;
    }
    text.into_bytes()
}

#[test]
fn nothing_is_loaded_at_first() {
    let manager: ModuleManager<u32> = ModuleManager::new();
    assert!(manager.current().is_none());
}

#[test]
fn first_module_retires_nothing() {
    let mut manager: ModuleManager<u32> = ModuleManager::new();
    match manager.open_and_replace(7, &image(&["_ZN3foo3barE"])) {
        Replaced::Installed { retired } => assert_eq!(retired, None),
        Replaced::Unreadable { .. } => panic!("the artifact is readable"),
    }
    let module = manager.current().unwrap();
    assert_eq!(module.handle, 7);
    assert_eq!(
        module.symbols.symbols,
        vec![DemangledSymbol {
            mangled: "_ZN3foo3barE".to_string(),
            demangled: "foo::bar".to_string(),
        }]
    );
}

#[test]
fn next_module_retires_the_one_before() {
    let mut manager: ModuleManager<u32> = ModuleManager::new();
    manager.open_and_replace(7, &image(&["_ZN3foo3barE"]));
    match manager.open_and_replace(8, &image(&["_ZN3foo3bazE"])) {
        Replaced::Installed { retired } => assert_eq!(retired, Some(7)),
        Replaced::Unreadable { .. } => panic!("the artifact is readable"),
    }
    let module = manager.current().unwrap();
    assert_eq!(module.handle, 8);
    assert_eq!(module.symbols.symbols[0].demangled, "foo::baz");
}

#[test]
fn unreadable_artifact_leaves_the_module_in_place() {
    let mut manager: ModuleManager<u32> = ModuleManager::new();
    manager.open_and_replace(7, &image(&["_ZN3foo3barE"]));
    match manager.open_and_replace(8, b"half-written artifact") {
        Replaced::Unreadable { rejected } => assert_eq!(rejected, 8),
        Replaced::Installed { .. } => panic!("the artifact is not readable"),
    }
    let module = manager.current().unwrap();
    assert_eq!(module.handle, 7);
    assert_eq!(module.symbols.symbols[0].demangled, "foo::bar");
}

#[test]
fn unreadable_artifact_installs_nothing() {
    let mut manager: ModuleManager<u32> = ModuleManager::new();
    match manager.open_and_replace(8, b"") {
        Replaced::Unreadable { rejected } => assert_eq!(rejected, 8),
        Replaced::Installed { .. } => panic!("the artifact is not readable"),
    }
    assert!(manager.current().is_none());
}
