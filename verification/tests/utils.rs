use calendar_engine::utils::{data_bool, join_class, merge_class};

#[test]
fn test_merge_class_with_extra() {
    assert_eq!(
        merge_class("base", Some("extra".to_string())),
        "base extra"
    );
}

#[test]
fn test_merge_class_without_extra() {
    assert_eq!(merge_class("base", None), "base");
}

#[test]
fn test_merge_class_with_empty_extra() {
    assert_eq!(merge_class("base", Some("".to_string())), "base");
    assert_eq!(merge_class("base", Some("   ".to_string())), "base");
}

#[test]
fn test_data_bool() {
    assert_eq!(data_bool(true), "true");
    assert_eq!(data_bool(false), "false");
}

#[test]
fn merge_class_drops_whitespace_around_extra() {
    assert_eq!(
        merge_class("base", Some("  extra  ".to_string())),
        "base extra"
    );
    assert_eq!(
        merge_class("base", Some("\t one two\n".to_string())),
        "base one two"
    );
    assert_eq!(
        merge_class("base", Some("\u{3000}wide\u{a0}".to_string())),
        "base wide"
    );
}

#[test]
fn merge_class_with_empty_base() {
    assert_eq!(merge_class("", Some("extra".to_string())), " extra");
    assert_eq!(merge_class("", None), "");
}

#[test]
fn join_class_takes_extra_as_it_is() {
    assert_eq!(join_class("base", "extra"), "base extra");
    assert_eq!(join_class("base", ""), "base");
    assert_eq!(join_class("base", " "), "base  ");
    assert_eq!(join_class("a b", "c"), "a b c");
}
