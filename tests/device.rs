use morseclock_hw::device::parse_level;
use morseclock_hw::{Error, LedState};

#[test]
fn levels_are_trimmed_decimal_numbers() {
    assert_eq!(parse_level("255\n"), Some(255));
    assert_eq!(parse_level("  12 \t"), Some(12));
    assert_eq!(parse_level("+7"), Some(7));
    assert_eq!(parse_level("4294967295"), Some(4294967295));
    assert_eq!(parse_level("4294967296"), None);
    assert_eq!(parse_level("abc"), None);
    assert_eq!(parse_level(""), None);
    assert_eq!(parse_level("-1"), None);
    assert_eq!(parse_level("1 2"), None);
}

#[test]
fn acquisition_reads_the_endpoints() {
    let st = LedState::from_texts("none [heartbeat] cpu0\n", "255\n", "37\n").unwrap();
    assert_eq!(st.on_level(), 255);
    assert_eq!(st.off_level(), 0);
    assert_eq!(st.restore_level(), 37);
    assert_eq!(st.restore_trigger(), Some("heartbeat"));

    let st = LedState::from_texts("[none] timer", "1", "0").unwrap();
    assert_eq!(st.restore_trigger(), None);
}

#[test]
fn acquisition_rejects_non_numeric_levels() {
    assert_eq!(
        LedState::from_texts("[none]", "full", "0").unwrap_err(),
        Error::ParseInt
    );
    assert_eq!(
        LedState::from_texts("[none]", "255", "").unwrap_err(),
        Error::ParseInt
    );
}

struct Endpoints {
    brightness: u32,
    trigger: Option<String>,
}

impl Endpoints {
    fn write_trigger(&mut self, name: &str) {
        self.trigger = if name == "none" { None } else { Some(name.to_string()) };
    }
}

#[test]
fn release_restores_endpoints() {
    for (trigger_text, before_trigger) in [
        ("none [usb-gadget] heartbeat", Some("usb-gadget")),
        ("[none] timer", None),
    ] {
        let mut ep = Endpoints {
            brightness: 3,
            trigger: before_trigger.map(|t| t.to_string()),
        };
        let st = LedState::from_texts(trigger_text, "255\n", "3\n").unwrap();
        ep.write_trigger("none");
        for i in 0..7 {
            ep.brightness = if i % 2 == 0 { st.on_level() } else { st.off_level() };
        }
        ep.brightness = st.restore_level();
        if let Some(t) = st.restore_trigger() {
            ep.write_trigger(t);
        }
        assert_eq!(ep.brightness, 3);
        assert_eq!(ep.trigger.as_deref(), before_trigger);
    }
}
