use reloady::text::{
    concat3, ends_with_marker, has_marker_segment, marker_name, marker_suffix_str, qualified_name,
    same_text, starts_with,
};

#[test]
fn prefix_is_found() {
    assert!(starts_with("pkg::add", "pkg"));
    assert!(starts_with("pkg::add", "pkg::add"));
    assert!(starts_with("pkg::add", ""));
    assert!(!starts_with("pkg", "pkg::add"));
    assert!(!starts_with("pkg::add", "pkg::sub"));
}

#[test]
fn prefix_counts_characters_not_bytes() {
    assert!(starts_with("größe::f", "größe"));
    assert!(!starts_with("große::f", "größe"));
}

#[test]
fn same_text_compares_whole_texts() {
    assert!(same_text("pkg::add", "pkg::add"));
    assert!(same_text("", ""));
    assert!(!same_text("pkg::add", "pkg::ad"));
    assert!(!same_text("pkg::ad", "pkg::add"));
    assert!(!same_text("pkg::add", "pkg::adx"));
}

#[test]
fn marker_suffix_is_the_reserved_text() {
    assert_eq!(marker_suffix_str(), "__reloady_sighash");
}

#[test]
fn marker_name_appends_the_suffix() {
    assert_eq!(marker_name("pkg::__add_fn_impl"), "pkg::__add_fn_impl__reloady_sighash");
    assert_eq!(marker_name(""), "__reloady_sighash");
}

#[test]
fn qualified_name_joins_scope_and_function() {
    assert_eq!(qualified_name("pkg::inner", "__add_fn_impl"), "pkg::inner::__add_fn_impl");
}

#[test]
fn concat3_keeps_the_order() {
    assert_eq!(concat3("a", "b", "c"), "abc");
    assert_eq!(concat3("", "", ""), "");
}

#[test]
fn segment_ending_with_suffix_is_a_marker() {
    assert!(has_marker_segment("pkg::__add_fn_impl__reloady_sighash"));
    assert!(has_marker_segment("pkg::__add_fn_impl__reloady_sighash::h0123456789abcdef"));
    assert!(has_marker_segment("__reloady_sighash"));
    assert!(has_marker_segment("__reloady_sighash::tail"));
}

#[test]
fn suffix_inside_a_segment_is_no_marker() {
    assert!(!has_marker_segment("pkg::__add_fn_impl"));
    assert!(!has_marker_segment("pkg::__add_fn_impl__reloady_sighashx"));
    assert!(!has_marker_segment("pkg::__reloady_sighash_tail::f"));
    assert!(!has_marker_segment(""));
    assert!(!has_marker_segment("::"));
    assert!(!has_marker_segment("_reloady_sighash"));
}

#[test]
fn separators_are_taken_leftmost_first() {
    // "a__reloady_sighash:::b" splits into "a__reloady_sighash" and ":b".
    assert!(has_marker_segment("a__reloady_sighash:::b"));
    // "a:::__reloady_sighash" splits into "a" and ":__reloady_sighash".
    assert!(has_marker_segment("a:::__reloady_sighash"));
    // A single colon is no separator.
    assert!(!has_marker_segment("a__reloady_sighash:b"));
}

#[test]
fn marker_segments_agree_with_split() {
    let names = [
        "pkg::__add_fn_impl__reloady_sighash::h0",
        "pkg::__add_fn_impl::h0",
        "a:::b__reloady_sighash",
        "x__reloady_sighash::::y",
        "__reloady_sighash:",
        ":__reloady_sighash",
    ];
    for name in names {
        let expected = name.split("::").any(|segment| segment.ends_with("__reloady_sighash"));
        assert_eq!(has_marker_segment(name), expected);
    }
}

#[test]
fn ends_with_marker_looks_at_the_range() {
    let name = "ab__reloady_sighash::c";
    assert!(ends_with_marker(name, 0, 19));
    assert!(ends_with_marker(name, 2, 19));
    assert!(!ends_with_marker(name, 3, 19));
    assert!(!ends_with_marker(name, 0, 18));
    assert!(!ends_with_marker(name, 0, 22));
}
