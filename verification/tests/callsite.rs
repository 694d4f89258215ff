use reloady::callsite::{
    argument_name, decimal_text, implementation_name, lock_name, marker_ident,
};
use reloady::text::has_marker_segment;

#[test]
fn body_is_emitted_under_a_wrapped_name() {
    assert_eq!(implementation_name("add"), "__add_fn_impl");
    assert_eq!(implementation_name(""), "___fn_impl");
}

#[test]
fn marker_is_the_body_name_with_the_suffix() {
    assert_eq!(marker_ident("add"), "__add_fn_impl__reloady_sighash");
}

#[test]
fn marker_ident_is_a_marker_path_and_the_body_is_not() {
    assert!(has_marker_segment(&format!("pkg::{}", marker_ident("add"))));
    assert!(!has_marker_segment(&format!("pkg::{}", implementation_name("add"))));
}

#[test]
fn lock_name_is_upper_case() {
    assert_eq!(lock_name("add"), "__ADD_FN_MUTEX");
    assert_eq!(lock_name("load_Ptr2"), "__LOAD_PTR2_FN_MUTEX");
    assert_eq!(lock_name("größe"), "__GRÖSSE_FN_MUTEX");
}

#[test]
fn decimal_text_has_no_leading_zeros() {
    assert_eq!(decimal_text(0), "0");
    assert_eq!(decimal_text(7), "7");
    assert_eq!(decimal_text(10), "10");
    assert_eq!(decimal_text(1234567890), "1234567890");
    assert_eq!(decimal_text(usize::MAX), usize::MAX.to_string());
}

#[test]
fn arguments_are_numbered_from_zero() {
    assert_eq!(argument_name(0), "_arg0");
    assert_eq!(argument_name(9), "_arg9");
    assert_eq!(argument_name(12), "_arg12");
}
