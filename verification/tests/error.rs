use reloady::error::ReloadError;

#[test]
fn mismatch_tells_the_operator_to_restart() {
    assert_eq!(
        ReloadError::AbiMismatch.describe("pkg::__add_fn_impl"),
        "ERR-PANIC: new lib's signature for pkg::__add_fn_impl does not match current signature, please restart!"
    );
}

#[test]
fn missing_symbol_is_named_as_such() {
    assert_eq!(ReloadError::SymbolNotFound.describe("pkg::__add_fn_impl"), "Couldn't find symbol");
}

#[test]
fn every_failure_has_its_own_message() {
    let all = [
        ReloadError::MetadataUnreadable,
        ReloadError::SymbolNotFound,
        ReloadError::AbiMismatch,
        ReloadError::ModuleOpenFailed,
        ReloadError::ArtifactUnavailable,
        ReloadError::OutOfTurn,
    ];
    for (i, one) in all.iter().enumerate() {
        assert!(!one.describe("f").is_empty());
        for other in &all[i + 1..] {
            assert_ne!(one.describe("f"), other.describe("f"));
        }
    }
}

#[test]
fn only_incompatible_modules_are_fatal() {
    assert!(ReloadError::AbiMismatch.fatal());
    assert!(ReloadError::SymbolNotFound.fatal());
    assert!(!ReloadError::MetadataUnreadable.fatal());
    assert!(!ReloadError::ModuleOpenFailed.fatal());
    assert!(!ReloadError::ArtifactUnavailable.fatal());
    assert!(!ReloadError::OutOfTurn.fatal());
}
