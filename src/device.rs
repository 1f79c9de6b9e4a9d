use vstd::prelude::*;
use vstd::string::StringSliceAdditionalSpecFns;
use vstd::utf8::encode_utf8;

use crate::error::Error;
use crate::parser::{active_trigger, none_bytes, parse_trigger};

verus! {

/// Characters with the Unicode `White_Space` property.
pub open spec fn is_white_space(c: char) -> bool {
    ('\t' <= c <= '\r') || c == ' ' || c == '\u{85}' || c == '\u{a0}' || c == '\u{1680}' || (
    '\u{2000}' <= c <= '\u{200a}') || c == '\u{2028}' || c == '\u{2029}' || c == '\u{202f}'
        || c == '\u{205f}' || c == '\u{3000}'
}

pub open spec fn trim_start(s: Seq<char>) -> Seq<char>
    decreases s.len(),
{
    if s.len() > 0 && is_white_space(s[0]) {
        trim_start(s.drop_first())
    } else {
        s
    }
}

pub open spec fn trim_end(s: Seq<char>) -> Seq<char>
    decreases s.len(),
{
    if s.len() > 0 && is_white_space(s.last()) {
        trim_end(s.drop_last())
    } else {
        s
    }
}

/// Value of a non-empty string of ASCII digits.
pub open spec fn digits_value(s: Seq<char>) -> nat
    decreases s.len(),
{
    if s.len() == 0 {
        0
    } else {
        (digits_value(s.drop_last()) * 10 + (s.last() as int - 48)) as nat
    }
}

/// The `u32` written by `s`: an optional `+` and then one or more ASCII digits.
pub open spec fn unsigned_text(s: Seq<char>) -> Option<nat> {
    let d = if s.len() > 0 && s[0] == '+' {
        s.drop_first()
    } else {
        s
    };
    if d.len() > 0 && (forall|i: int| 0 <= i < d.len() ==> '0' <= #[trigger] d[i] <= '9')
        && digits_value(d) <= u32::MAX {
        Some(digits_value(d))
    } else {
        None
    }
}

/// The level that a brightness endpoint's text shows, surrounding white space aside.
pub open spec fn level_of(s: Seq<char>) -> Option<nat> {
    unsigned_text(trim_end(trim_start(s)))
}

/// Relies on `str::trim`: drops leading and trailing `White_Space` characters.
#[verifier::external_body]
fn trim(s: &str) -> (r: &str)
    ensures
        r@ == trim_end(trim_start(s@)),
{
    s.trim()
}

/// Relies on `<u32 as FromStr>::from_str`: an optional `+` then decimal digits, in range.
#[verifier::external_body]
fn parse_u32(s: &str) -> (r: Option<u32>)
    ensures
        match r {
            Some(v) => unsigned_text(s@) == Some(v as nat),
            None => unsigned_text(s@) is None,
        },
{
    s.parse::<u32>().ok()
}

/// Reads the level shown by a brightness endpoint's text.
pub fn parse_level(text: &str) -> (r: Option<u32>)
    ensures
        match r {
            Some(v) => level_of(text@) == Some(v as nat),
            None => level_of(text@) is None,
        },
{
    parse_u32(trim(text))
}

/// What is known of an LED once it has been acquired: its maximum level, and the level
/// and trigger it had before, which release puts back.
#[derive(Debug)]
pub struct LedState {
    pub max_brightness: u32,
    pub old_brightness: u32,
    pub trigger: Option<String>,
}

/// The state seen by the model: maximum, saved level, saved trigger as bytes.
pub struct SavedState {
    pub max_brightness: nat,
    pub old_brightness: nat,
    pub trigger: Option<Seq<u8>>,
}

/// The state that acquisition derives from the texts of the `trigger`, `max_brightness`
/// and `brightness` endpoints, or `None` where a level is not an unsigned integer.
pub open spec fn acquired(trigger: Seq<u8>, max: Seq<char>, brightness: Seq<char>) -> Option<
    SavedState,
> {
    match (level_of(max), level_of(brightness)) {
        (Some(m), Some(b)) => Some(
            SavedState { max_brightness: m, old_brightness: b, trigger: active_trigger(trigger) },
        ),
        _ => None,
    }
}

impl LedState {
    pub open spec fn saved(&self) -> SavedState {
        SavedState {
            max_brightness: self.max_brightness as nat,
            old_brightness: self.old_brightness as nat,
            trigger: match self.trigger {
                Some(t) => Some(encode_utf8(t@)),
                None => None,
            },
        }
    }

    /// Derives the state of an LED from the texts read from its endpoints.
    pub fn from_texts(trigger_text: &str, max_text: &str, brightness_text: &str) -> (r: Result<
        LedState,
        Error,
    >)
        ensures
            match r {
                Ok(st) => acquired(trigger_text.spec_bytes(), max_text@, brightness_text@) == Some(
                    st.saved(),
                ),
                Err(e) => e == Error::ParseInt && acquired(
                    trigger_text.spec_bytes(),
                    max_text@,
                    brightness_text@,
                ) is None,
            },
    {
        let max_brightness = match parse_level(max_text) {
            Some(v) => v,
            None => return Err(Error::ParseInt),
        };
        let old_brightness = match parse_level(brightness_text) {
            Some(v) => v,
            None => return Err(Error::ParseInt),
        };
        let trigger = match parse_trigger(trigger_text) {
            Some(t) => Some(t.to_owned()),
            None => None,
        };
        Ok(LedState { max_brightness, old_brightness, trigger })
    }

    /// The level written to light the LED.
    pub fn on_level(&self) -> (r: u32)
        ensures
            r == self.max_brightness,
    {
        self.max_brightness
    }

    /// The level written to darken the LED.
    pub fn off_level(&self) -> (r: u32)
        ensures
            r == 0,
    {
        0
    }

    /// The level written back on release.
    pub fn restore_level(&self) -> (r: u32)
        ensures
            r == self.old_brightness,
    {
        self.old_brightness
    }

    /// The trigger written back on release, if one was active.
    pub fn restore_trigger(&self) -> (r: Option<&str>)
        ensures
            match r {
                Some(t) => self.saved().trigger == Some(t.spec_bytes()),
                None => self.saved().trigger is None,
            },
    {
        match &self.trigger {
            Some(t) => Some(t.as_str()),
            None => None,
        }
    }
}

/// What the `brightness` and `trigger` endpoints of an LED hold.
pub struct Endpoints {
    pub brightness: nat,
    pub trigger: Option<Seq<u8>>,
}

/// Writing a level to the `brightness` endpoint.
pub open spec fn write_level(e: Endpoints, level: nat) -> Endpoints {
    Endpoints { brightness: level, trigger: e.trigger }
}

/// Writing a name to the `trigger` endpoint; `none` disables every trigger.
pub open spec fn write_trigger(e: Endpoints, name: Seq<u8>) -> Endpoints {
    Endpoints { brightness: e.brightness, trigger: if name == none_bytes() { None } else { Some(name) } }
}

/// A run of writes to the `brightness` endpoint, in order.
pub open spec fn write_levels(e: Endpoints, levels: Seq<nat>) -> Endpoints
    decreases levels.len(),
{
    if levels.len() == 0 {
        e
    } else {
        write_level(write_levels(e, levels.drop_last()), levels.last())
    }
}

/// The writes of acquisition: the trigger is disabled.
pub open spec fn acquire_writes(e: Endpoints) -> Endpoints {
    write_trigger(e, none_bytes())
}

/// The writes of release: the saved level, then the saved trigger if there was one.
pub open spec fn release_writes(e: Endpoints, s: SavedState) -> Endpoints {
    let e1 = write_level(e, s.old_brightness);
    match s.trigger {
        Some(t) => write_trigger(e1, t),
        None => e1,
    }
}

proof fn lemma_levels_keep_trigger(e: Endpoints, levels: Seq<nat>)
    ensures
        write_levels(e, levels).trigger == e.trigger,
    decreases levels.len(),
{
    if levels.len() > 0 {
        lemma_levels_keep_trigger(e, levels.drop_last());
    }
}

/// Acquiring an LED whose endpoints read as `pre`, writing any levels to it, and
/// releasing it leaves both endpoints exactly as they were before acquisition.
pub proof fn lemma_release_restores(
    pre: Endpoints,
    trigger_text: Seq<u8>,
    max_text: Seq<char>,
    brightness_text: Seq<char>,
    levels: Seq<nat>,
)
    requires
        acquired(trigger_text, max_text, brightness_text) is Some,
        level_of(brightness_text) == Some(pre.brightness),
        active_trigger(trigger_text) == pre.trigger,
    ensures
        release_writes(
            write_levels(acquire_writes(pre), levels),
            acquired(trigger_text, max_text, brightness_text)->0,
        ) == pre,
{
    lemma_levels_keep_trigger(acquire_writes(pre), levels);
    let s = acquired(trigger_text, max_text, brightness_text)->0;
    match s.trigger {
        Some(t) => {
            assert(t != none_bytes());
        },
        None => {},
    }
}

} // verus!
