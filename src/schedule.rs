use vstd::prelude::*;

use crate::encoder::{encode, encoding, Format, Symbol};
use crate::timing::Timing;

verus! {

/// The slice length and slice count that a pause of `t` ms is split into.
pub open spec fn pause_split(t: nat) -> (nat, nat) {
    if t <= 200 {
        (t, 1)
    } else {
        let slice = t / (t / 200);
        (slice, t / slice)
    }
}

/// Splits a pause of `target_duration` ms into equal slices of about 200 ms.
/// Returns the slice length and the number of slices.
pub fn approximate_pause_repeats(target_duration: u64) -> (r: (u64, u64))
    ensures
        r == (pause_split(target_duration as nat).0 as u64, pause_split(target_duration as nat).1 as u64),
        target_duration <= 200 ==> r == (target_duration, 1u64),
        target_duration > 200 ==> {
            let repeats = target_duration / 200;
            &&& r.0 == target_duration / repeats
            &&& r.1 == target_duration / r.0
            &&& 200 <= r.0 < 400
            &&& r.0 * r.1 <= target_duration < r.0 * r.1 + r.0
        },
{
    if target_duration <= 200 {
        (target_duration, 1)
    } else {
        let approx_repeats: u64 = target_duration / 200;
        let approx_break_duration: u64 = target_duration / approx_repeats;
        proof {
            let t = target_duration as int;
            let q = approx_repeats as int;
            assert(q >= 1);
            assert(q * 200 <= t < q * 200 + 200) by (nonlinear_arith)
                requires q == t / 200, t > 200;
            assert(200 <= t / q < 400) by (nonlinear_arith)
                requires q * 200 <= t < q * 200 + 200, q >= 1;
        }
        let count: u64 = target_duration / approx_break_duration;
        proof {
            let t = target_duration as int;
            let d = approx_break_duration as int;
            assert(d * (t / d) <= t < d * (t / d) + d) by (nonlinear_arith)
                requires d > 0, t >= 0;
        }
        (approx_break_duration, count)
    }
}

/// What the loop that drives the LED does next.
#[derive(Clone, Copy, Debug, PartialEq, Eq, Structural)]
pub enum Action {
    /// Read the clock and start a cycle with `Runner::begin_cycle`.
    Sample,
    /// Light the LED for the first duration, then keep it dark for the second.
    Pulse(u64, u64),
    /// Keep the LED dark for this many milliseconds.
    Sleep(u64),
    /// Stop: release the LED and return.
    Stop,
}

/// The action that a symbol calls for.
pub open spec fn symbol_action(sym: Symbol, t: Timing) -> Action {
    match sym {
        Symbol::Break => Action::Sleep(t.base),
        Symbol::Short => Action::Pulse(t.short_on, t.short_off),
        Symbol::Long => Action::Pulse(t.long_on, t.long_off),
    }
}

/// The action that a symbol calls for.
pub fn action_for(sym: Symbol, t: &Timing) -> (r: Action)
    ensures
        r == symbol_action(sym, *t),
{
    match sym {
        Symbol::Break => Action::Sleep(t.base),
        Symbol::Short => Action::Pulse(t.short_on, t.short_off),
        Symbol::Long => Action::Pulse(t.long_on, t.long_off),
    }
}

/// The state of the loop as the model sees it.
pub struct RunnerView {
    pub timing: Timing,
    pub format: Format,
    pub slice: nat,
    pub slices: nat,
    pub symbols: Seq<Symbol>,
    pub pos: nat,
    pub pause_left: nat,
    pub stopped: bool,
}

/// One step of the loop: a stopped runner, or one that sees the cancellation flag set,
/// stops; otherwise it plays the next symbol, else sleeps one pause slice, else asks for
/// a new time.
pub open spec fn step_spec(v: RunnerView, cancelled: bool) -> (RunnerView, Action) {
    if v.stopped || cancelled {
        (RunnerView { stopped: true, ..v }, Action::Stop)
    } else if v.pos < v.symbols.len() {
        (RunnerView { pos: v.pos + 1, ..v }, symbol_action(v.symbols[v.pos as int], v.timing))
    } else if v.pause_left > 0 {
        (RunnerView { pause_left: (v.pause_left - 1) as nat, ..v }, Action::Sleep(v.slice as u64))
    } else {
        (v, Action::Sample)
    }
}

/// The decisions of the loop that renders the time on the LED, cycle after cycle, until
/// cancellation: the symbols of the current time in order, then the pause in slices.
pub struct Runner {
    timing: Timing,
    format: Format,
    slice: u64,
    slices: u64,
    symbols: Vec<Symbol>,
    pos: usize,
    pause_left: u64,
    stopped: bool,
}

impl Runner {
    pub closed spec fn view(&self) -> RunnerView {
        RunnerView {
            timing: self.timing,
            format: self.format,
            slice: self.slice as nat,
            slices: self.slices as nat,
            symbols: self.symbols@,
            pos: self.pos as nat,
            pause_left: self.pause_left as nat,
            stopped: self.stopped,
        }
    }

    /// A running loop with no cycle begun, whose pause of `pause` ms is split into slices.
    pub fn new(timing: Timing, pause: u64, format: Format) -> (r: Runner)
        ensures
            r.view().timing == timing,
            r.view().format == format,
            r.view().slice == pause_split(pause as nat).0,
            r.view().slices == pause_split(pause as nat).1,
            r.view().symbols.len() == 0,
            r.view().pos == 0,
            r.view().pause_left == 0,
            !r.view().stopped,
    {
        let (slice, slices) = approximate_pause_repeats(pause);
        Runner {
            timing,
            format,
            slice,
            slices,
            symbols: Vec::new(),
            pos: 0,
            pause_left: 0,
            stopped: false,
        }
    }

    /// Whether the loop has stopped.
    pub fn is_stopped(&self) -> (r: bool)
        ensures
            r == self.view().stopped,
    {
        self.stopped
    }

    /// Starts a cycle for the time `hour:minute`: its symbols, then the whole pause.
    pub fn begin_cycle(&mut self, hour: u32, minute: u32)
        requires
            hour < 24,
            minute < 60,
        ensures
            final(self).view() == (RunnerView {
                symbols: encoding(hour as int, minute as int, old(self).view().format),
                pos: 0,
                pause_left: old(self).view().slices,
                ..old(self).view()
            }),
    {
        self.symbols = encode(hour, minute, self.format);
        self.pos = 0;
        self.pause_left = self.slices;
    }

    /// Takes one step, `cancelled` being what the cancellation flag reads now.
    pub fn step(&mut self, cancelled: bool) -> (r: Action)
        ensures
            (final(self).view(), r) == step_spec(old(self).view(), cancelled),
    {
        if self.stopped || cancelled {
            self.stopped = true;
            Action::Stop
        } else if self.pos < self.symbols.len() {
            let a = action_for(self.symbols[self.pos], &self.timing);
            self.pos = self.pos + 1;
            a
        } else if self.pause_left > 0 {
            self.pause_left = self.pause_left - 1;
            Action::Sleep(self.slice)
        } else {
            Action::Sample
        }
    }
}

/// Once stopped, a runner stays stopped and only ever says `Stop`, whatever the flag reads.
pub proof fn lemma_stop_is_final(v: RunnerView, cancelled: bool)
    requires
        v.stopped,
    ensures
        step_spec(v, cancelled).0.stopped,
        step_spec(v, cancelled).1 == Action::Stop,
{
}

/// During the pause, a runner sleeps one slice per step and stops at the first step after
/// the flag is set; a slice of a pause of `pause` ms lasts at most 200 ms where the pause
/// is no longer, and under 400 ms otherwise.
pub proof fn lemma_cancel_within_slice(v: RunnerView, pause: nat)
    requires
        !v.stopped,
        v.pos >= v.symbols.len(),
        v.pause_left > 0,
        v.slice == pause_split(pause).0,
        pause <= u64::MAX,
    ensures
        step_spec(v, false).1 == Action::Sleep(v.slice as u64),
        step_spec(v, true).1 == Action::Stop,
        step_spec(v, true).0.stopped,
        pause <= 200 ==> v.slice <= 200,
        pause > 200 ==> v.slice < 400,
{
    if pause > 200 {
        let q = pause / 200;
        assert(q * 200 <= pause < q * 200 + 200) by (nonlinear_arith)
            requires q == pause / 200, pause > 200;
        assert(pause / q < 400) by (nonlinear_arith)
            requires q * 200 <= pause < q * 200 + 200, q >= 1;
    }
}

} // verus!
