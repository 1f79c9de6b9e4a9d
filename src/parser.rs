use vstd::prelude::*;
use vstd::string::StringSliceAdditionalSpecFns;
use vstd::utf8::*;

verus! {

broadcast use {encode_utf8_valid_utf8, is_char_boundary_iff_not_is_continuation_byte};

/// Bytes that may form a trigger name: ASCII letters, digits and `-`.
pub open spec fn is_trigger_byte(c: u8) -> bool {
    (48 <= c <= 57) || (97 <= c <= 122) || (65 <= c <= 90) || c == 45
}

/// Index of the first `[` at or after `from`, or the length if there is none.
pub open spec fn find_open(b: Seq<u8>, from: int) -> int
    decreases b.len() - from,
{
    if from >= b.len() || from < 0 {
        b.len() as int
    } else if b[from] == 91 {
        from
    } else {
        find_open(b, from + 1)
    }
}

/// End of the run of trigger bytes that starts at `from`.
pub open spec fn token_end(b: Seq<u8>, from: int) -> int
    decreases b.len() - from,
{
    if from >= b.len() || from < 0 || !is_trigger_byte(b[from]) {
        from
    } else {
        token_end(b, from + 1)
    }
}

/// The bytes of the literal `none`.
pub open spec fn none_bytes() -> Seq<u8> {
    seq![110u8, 111u8, 110u8, 101u8]
}

/// The bracketed name after the first `[`: a non-empty run of trigger bytes closed by `]`.
pub open spec fn bracketed(b: Seq<u8>) -> Option<Seq<u8>> {
    let p = find_open(b, 0);
    let e = token_end(b, p + 1);
    if p < b.len() && e > p + 1 && e < b.len() && b[e] == 93 {
        Some(b.subrange(p + 1, e))
    } else {
        None
    }
}

/// The active trigger named by a status text, `None` where there is none or it is `none`.
pub open spec fn active_trigger(b: Seq<u8>) -> Option<Seq<u8>> {
    match bracketed(b) {
        Some(t) => if t == none_bytes() {
            None
        } else {
            Some(t)
        },
        None => None,
    }
}

proof fn lemma_find_open_bounds(b: Seq<u8>, from: int)
    requires
        0 <= from,
    ensures
        from <= find_open(b, from) <= b.len() || (from > b.len() && find_open(b, from) == b.len()),
        find_open(b, from) < b.len() ==> b[find_open(b, from)] == 91,
    decreases b.len() - from,
{
    if from < b.len() && b[from] != 91 {
        lemma_find_open_bounds(b, from + 1);
    }
}

proof fn lemma_token_end_bounds(b: Seq<u8>, from: int)
    requires
        0 <= from <= b.len(),
    ensures
        from <= token_end(b, from) <= b.len(),
        forall|i: int| from <= i < token_end(b, from) ==> is_trigger_byte(b[i]),
    decreases b.len() - from,
{
    if from < b.len() && is_trigger_byte(b[from]) {
        lemma_token_end_bounds(b, from + 1);
    }
}

/// Extracts the active trigger from a trigger status text such as `"none [usb-gadget] cpu0"`.
/// Never fails: malformed input gives `None`.
pub fn parse_trigger(input: &str) -> (r: Option<&str>)
    ensures
        match r {
            Some(t) => active_trigger(input.spec_bytes()) == Some(t.spec_bytes()),
            None => active_trigger(input.spec_bytes()) is None,
        },
{
    let b = input.as_bytes();
    let ghost bs = input.spec_bytes();
    let n = b.len();
    let mut p: usize = 0;
    while p < n && b[p] != 91u8
        invariant
            b@ == bs,
            n == bs.len(),
            p <= n,
            find_open(bs, p as int) == find_open(bs, 0),
        decreases n - p,
    {
        p = p + 1;
    }
    proof {
        lemma_find_open_bounds(bs, 0);
    }
    if p == n {
        return None;
    }
    let mut e: usize = p + 1;
    while e < n && (48u8 <= b[e] && b[e] <= 57u8 || 97u8 <= b[e] && b[e] <= 122u8 || 65u8 <= b[e]
        && b[e] <= 90u8 || b[e] == 45u8)
        invariant
            b@ == bs,
            n == bs.len(),
            p < n,
            p + 1 <= e <= n,
            token_end(bs, e as int) == token_end(bs, p + 1),
            forall|i: int| p + 1 <= i < e ==> is_trigger_byte(bs[i]),
        decreases n - e,
    {
        e = e + 1;
    }
    if e == p + 1 || e == n || b[e] != 93u8 {
        return None;
    }
    proof {
        encode_utf8_valid_utf8(input@);
        assert(is_trigger_byte(bs[p + 1]));
        is_char_boundary_iff_not_is_continuation_byte(bs, p + 1);
        is_char_boundary_iff_not_is_continuation_byte(bs, e as int);
    }
    let (_, rest) = input.split_at(p + 1);
    proof {
        valid_utf8_split(bs, p + 1);
        assert(rest.spec_bytes()[e - p - 1] == bs[e as int]);
        is_char_boundary_iff_not_is_continuation_byte(rest.spec_bytes(), e - p - 1);
    }
    let (name, _) = rest.split_at(e - p - 1);
    assert(name.spec_bytes() =~= bs.subrange(p + 1, e as int));
    let nb = name.as_bytes();
    if nb.len() == 4 && nb[0] == 110u8 && nb[1] == 111u8 && nb[2] == 110u8 && nb[3] == 101u8 {
        assert(nb@ =~= none_bytes());
        None
    } else {
        Some(name)
    }
}

} // verus!
