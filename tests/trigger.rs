use morseclock_hw::parse_trigger;

#[test]
fn lib_trigger() {
    assert_eq!(parse_trigger("[none]"), None);
    assert_eq!(parse_trigger("[usb-gadget]"), Some("usb-gadget"));
    assert_eq!(parse_trigger("[cpu3]"), Some("cpu3"));
}

#[test]
fn lib_find_trigger() {
    assert_eq!(parse_trigger("some other"), None);
    assert_eq!(parse_trigger("some other [none]"), None);
    assert_eq!(
        parse_trigger("some [processor-14x] banana"),
        Some("processor-14x")
    );
}

#[test]
fn hwclock_trigger() {
    assert_eq!(parse_trigger("[none]"), None);
    assert_eq!(parse_trigger("[usb-gadget]"), Some("usb-gadget"));
    assert_eq!(parse_trigger("[cpu3]"), Some("cpu3"));
}

#[test]
fn hwclock_find_trigger() {
    assert_eq!(parse_trigger("some other"), None);
    assert_eq!(parse_trigger("some other [none]"), None);
    assert_eq!(parse_trigger("some [processor-14x] banana"), Some("processor-14x"));
}

#[test]
fn trigger_without_brackets_is_none() {
    assert_eq!(parse_trigger("no brackets here"), None);
    assert_eq!(parse_trigger(""), None);
}

#[test]
fn trigger_malformed_is_none() {
    assert_eq!(parse_trigger("[abc"), None);
    assert_eq!(parse_trigger("[]"), None);
    assert_eq!(parse_trigger("["), None);
    assert_eq!(parse_trigger("[a b]"), None);
    assert_eq!(parse_trigger("[ü]"), None);
    assert_eq!(parse_trigger("]x[y]"), Some("y"));
}

#[test]
fn trigger_only_first_bracket_counts() {
    assert_eq!(parse_trigger("[none] [cpu0]"), None);
    assert_eq!(parse_trigger("é [timer] [cpu0]"), Some("timer"));
    assert_eq!(parse_trigger("none [Heart-Beat2] x"), Some("Heart-Beat2"));
}
