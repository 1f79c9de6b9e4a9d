use vstd::prelude::*;

verus! {

/// The atomic timing unit of an encoded time.
#[derive(Clone, Copy, Debug, PartialEq, Eq, Structural)]
pub enum Symbol {
    /// A dot: a short pulse.
    Short,
    /// A dash: a long pulse.
    Long,
    /// A silent gap between the hour group and the minute group.
    Break,
}

/// Whether the hour is shown on a 12-hour or a 24-hour dial.
#[derive(Clone, Copy, Debug, PartialEq, Eq, Structural)]
pub enum Format {
    Hour12,
    Hour24,
}

/// Whether element `i` (0..5) of the International Morse pattern of digit `d` is a dot.
/// 1..=5 start with `d` dots, 6..=9 start with `d - 5` dashes, 0 is all dashes.
pub open spec fn is_dot(d: int, i: int) -> bool {
    if d == 0 {
        false
    } else if d <= 5 {
        i < d
    } else {
        i >= d - 5
    }
}

/// The five-element Morse pattern of a decimal digit.
pub open spec fn glyph(d: int) -> Seq<Symbol> {
    Seq::new(5, |i: int| if is_dot(d, i) { Symbol::Short } else { Symbol::Long })
}

/// The hour as it is shown: reduced to 1..=12 on a 12-hour dial.
pub open spec fn displayed_hour(hour: int, format: Format) -> int {
    match format {
        Format::Hour12 => (hour + 11) % 12 + 1,
        Format::Hour24 => hour,
    }
}

/// The hour group: one digit below ten, two digits otherwise, no leading zero.
pub open spec fn hour_group(h: int) -> Seq<Symbol> {
    if h < 10 {
        glyph(h)
    } else {
        glyph(h / 10) + glyph(h % 10)
    }
}

/// The minute group: always two digits, zero padded.
pub open spec fn minute_group(m: int) -> Seq<Symbol> {
    glyph(m / 10) + glyph(m % 10)
}

/// The full rendering of a time: hour group, one break, minute group.
pub open spec fn encoding(hour: int, minute: int, format: Format) -> Seq<Symbol> {
    hour_group(displayed_hour(hour, format)) + seq![Symbol::Break] + minute_group(minute)
}

/// Appends the Morse pattern of digit `d` to `out`.
fn push_glyph(out: &mut Vec<Symbol>, d: u32)
    requires
        d < 10,
    ensures
        final(out)@ == old(out)@ + glyph(d as int),
{
    let mut i: u32 = 0;
    while i < 5
        invariant
            d < 10,
            i <= 5,
            out@ == old(out)@ + glyph(d as int).subrange(0, i as int),
        decreases 5 - i,
    {
        let dot = if d == 0 {
            false
        } else if d <= 5 {
            i < d
        } else {
            i >= d - 5
        };
        out.push(if dot { Symbol::Short } else { Symbol::Long });
        assert(glyph(d as int).subrange(0, i + 1) =~= glyph(d as int).subrange(0, i as int)
            + seq![glyph(d as int)[i as int]]);
        i = i + 1;
    }
    assert(glyph(d as int).subrange(0, 5) =~= glyph(d as int));
}

/// Renders a time as Morse digits: the displayed hour without a leading zero,
/// one `Break`, then the minute as two digits.
pub fn encode(hour: u32, minute: u32, format: Format) -> (r: Vec<Symbol>)
    requires
        hour < 24,
        minute < 60,
    ensures
        r@ == encoding(hour as int, minute as int, format),
{
    let h: u32 = match format {
        Format::Hour12 => (hour + 11) % 12 + 1,
        Format::Hour24 => hour,
    };
    let mut out: Vec<Symbol> = Vec::new();
    if h < 10 {
        push_glyph(&mut out, h);
    } else {
        push_glyph(&mut out, h / 10);
        push_glyph(&mut out, h % 10);
    }
    out.push(Symbol::Break);
    push_glyph(&mut out, minute / 10);
    push_glyph(&mut out, minute % 10);
    assert(out@ =~= encoding(hour as int, minute as int, format));
    out
}

/// The rendering of a valid time is a function of the hour, minute and format alone:
/// two renderings of the same inputs are equal, and each is finite, of 11 to 21 symbols.
pub proof fn lemma_encoding_deterministic(
    hour: int,
    minute: int,
    format: Format,
    first: Seq<Symbol>,
    second: Seq<Symbol>,
)
    requires
        0 <= hour < 24,
        0 <= minute < 60,
        first == encoding(hour, minute, format),
        second == encoding(hour, minute, format),
    ensures
        first == second,
        11 <= first.len() <= 21,
{
}

/// The rendering of any valid time holds exactly one `Break`, at the index just past
/// the hour group: every symbol before it belongs to the hour, every one after it to the
/// minute, and both groups are non-empty. The rendering has at most 21 symbols.
pub proof fn lemma_single_break(hour: int, minute: int, format: Format)
    requires
        0 <= hour < 24,
        0 <= minute < 60,
    ensures
        ({
            let s = encoding(hour, minute, format);
            let k = hour_group(displayed_hour(hour, format)).len() as int;
            &&& 0 < k < s.len() - 1
            &&& s.len() <= 21
            &&& s[k] == Symbol::Break
            &&& forall|i: int| 0 <= i < s.len() && i != k ==> s[i] != Symbol::Break
            &&& s.subrange(0, k) == hour_group(displayed_hour(hour, format))
            &&& s.subrange(k + 1, s.len() as int) == minute_group(minute)
        }),
{
    let h = displayed_hour(hour, format);
    let s = encoding(hour, minute, format);
    let k = hour_group(h).len() as int;
    assert forall|i: int| 0 <= i < s.len() && i != k implies s[i] != Symbol::Break by {
        if i < k {
            if h >= 10 && i >= 5 {
                assert(s[i] == glyph(h % 10)[i - 5]);
            } else if h >= 10 {
                assert(s[i] == glyph(h / 10)[i]);
            }
        } else if i < k + 6 {
            assert(s[i] == glyph(minute / 10)[i - k - 1]);
        } else {
            assert(s[i] == glyph(minute % 10)[i - k - 6]);
        }
    }
    assert(s.subrange(0, k) =~= hour_group(h));
    assert(s.subrange(k + 1, s.len() as int) =~= minute_group(minute));
}

} // verus!
