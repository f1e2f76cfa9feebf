//! How the controller starts and how it reacts to the screen: the run mode
//! chosen by the command line, the darkening delay, and the state machine
//! that arms a darkening timer when the screen goes dark and restores the
//! lighting when it wakes.

use vstd::prelude::*;
use vstd::utf8::*;
use crate::dpms::ScreenPowerState;

verus! {

/// What the controller does when started.
#[derive(Debug, Clone, Copy, PartialEq, Eq, Structural)]
pub enum RunMode {
    /// Darken once and exit.
    Darken,
    /// Restore the lighting once and exit.
    Lighten,
    /// Watch the screen and react to it.
    Monitor,
}

/// The run mode asked for by the `--dark` and `--light` flags; `--dark`
/// wins when both are given.
pub fn run_mode(dark: bool, light: bool) -> (m: RunMode)
    ensures
        m == (if dark {
            RunMode::Darken
        } else if light {
            RunMode::Lighten
        } else {
            RunMode::Monitor
        }),
{
    if dark {
        RunMode::Darken
    } else if light {
        RunMode::Lighten
    } else {
        RunMode::Monitor
    }
}

/// Seconds to wait after the screen goes dark when neither the command line
/// nor the environment says otherwise.
pub const DEFAULT_TIMEOUT_SECS: u64 = 30;

pub open spec fn is_ascii_digit(b: u8) -> bool {
    48 <= b <= 57
}

/// The value of a sequence of ASCII decimal digits.
pub open spec fn digits_value(d: Seq<u8>) -> int
    decreases d.len(),
{
    if d.len() == 0 {
        0
    } else {
        digits_value(d.drop_last()) * 10 + (d.last() - 48)
    }
}

/// The digits of an unsigned decimal numeral: the text without one leading
/// `+`.
pub open spec fn numeral_digits(b: Seq<u8>) -> Seq<u8> {
    if b.len() > 0 && b[0] == 43 {
        b.drop_first()
    } else {
        b
    }
}

/// The `u64` that the text with UTF-8 bytes `b` spells in decimal, as
/// `str::parse::<u64>` reads it: an optional `+`, then at least one ASCII
/// digit and nothing else, of a value that fits in 64 bits.
pub open spec fn decimal_u64(b: Seq<u8>) -> Option<u64> {
    let d = numeral_digits(b);
    if d.len() > 0 && (forall|i: int| 0 <= i < d.len() ==> is_ascii_digit(#[trigger] d[i]))
        && digits_value(d) <= u64::MAX {
        Some(digits_value(d) as u64)
    } else {
        None
    }
}

proof fn lemma_digits_value_grows(d: Seq<u8>, j: int)
    requires
        0 <= j <= d.len(),
        forall|i: int| 0 <= i < d.len() ==> is_ascii_digit(#[trigger] d[i]),
    ensures
        digits_value(d.subrange(0, j)) <= digits_value(d),
        0 <= digits_value(d.subrange(0, j)),
    decreases d.len() - j,
{
    if j == d.len() {
        assert(d.subrange(0, j) =~= d);
        lemma_digits_value_nonneg(d);
    } else {
        lemma_digits_value_grows(d, j + 1);
        assert(d.subrange(0, j + 1).drop_last() =~= d.subrange(0, j));
        lemma_digits_value_nonneg(d.subrange(0, j));
    }
}

proof fn lemma_digits_value_nonneg(d: Seq<u8>)
    requires
        forall|i: int| 0 <= i < d.len() ==> is_ascii_digit(#[trigger] d[i]),
    ensures
        0 <= digits_value(d),
    decreases d.len(),
{
    if d.len() > 0 {
        let p = d.drop_last();
        assert forall|i: int| 0 <= i < p.len() implies is_ascii_digit(#[trigger] p[i]) by {
            assert(p[i] == d[i]);
        }
        lemma_digits_value_nonneg(p);
    }
}

/// A single ASCII digit is read as its value.
pub proof fn lemma_decimal_single_digit(c: u8)
    requires
        48 <= c <= 57,
    ensures
        decimal_u64(seq![c]) == Some((c - 48) as u64),
{
    let d = seq![c];
    assert(numeral_digits(d) =~= d);
    assert(d.drop_last() =~= Seq::<u8>::empty());
    assert(d.last() == c);
    assert(digits_value(Seq::<u8>::empty()) == 0);
    assert(digits_value(d) == c - 48);
    assert(is_ascii_digit(d[0]));
    assert(forall|i: int| 0 <= i < d.len() ==> is_ascii_digit(#[trigger] d[i]));
}

/// Appending an ASCII digit multiplies the value read by ten and adds the
/// digit, as long as the result fits in 64 bits; when it does not fit, or
/// when the numeral before was not readable, nothing is read.
pub proof fn lemma_decimal_append_digit(d: Seq<u8>, c: u8)
    requires
        48 <= c <= 57,
        d.len() > 0,
        d[0] != 43,
    ensures
        decimal_u64(d) matches Some(v) ==> (if v * 10 + (c - 48) <= u64::MAX {
            decimal_u64(d.push(c)) == Some((v * 10 + (c - 48)) as u64)
        } else {
            decimal_u64(d.push(c)) is None
        }),
        decimal_u64(d) is None ==> decimal_u64(d.push(c)) is None,
{
    let e = d.push(c);
    assert(numeral_digits(d) =~= d);
    assert(numeral_digits(e) =~= e);
    assert(e.drop_last() =~= d);
    assert(e.last() == c);
    assert(digits_value(e) == digits_value(d) * 10 + (c - 48));
    assert(is_ascii_digit(e[d.len() as int]));
    if decimal_u64(d) is None {
        if forall|i: int| 0 <= i < e.len() ==> is_ascii_digit(#[trigger] e[i]) {
            assert forall|i: int| 0 <= i < d.len() implies is_ascii_digit(#[trigger] d[i]) by {
                assert(d[i] == e[i]);
            }
            lemma_digits_value_nonneg(d);
        }
    } else {
        let v = decimal_u64(d)->0;
        assert(forall|i: int| 0 <= i < d.len() ==> is_ascii_digit(#[trigger] d[i]));
        assert(digits_value(d) <= u64::MAX);
        lemma_digits_value_nonneg(d);
        assert(v == digits_value(d));
        assert forall|i: int| 0 <= i < e.len() implies is_ascii_digit(#[trigger] e[i]) by {
            if i < d.len() {
                assert(e[i] == d[i]);
            }
        }
        if v * 10 + (c - 48) <= u64::MAX {
            assert(decimal_u64(e) == Some((v * 10 + (c - 48)) as u64));
        } else {
            assert(decimal_u64(e) is None);
        }
    }
}

/// One leading `+` does not change what is read.
pub proof fn lemma_decimal_plus_sign(d: Seq<u8>)
    requires
        d.len() == 0 || d[0] != 43,
    ensures
        decimal_u64(seq![43u8] + d) == decimal_u64(d),
{
    assert((seq![43u8] + d).drop_first() =~= d);
}

/// Nothing is read from an empty text, and nothing from a text holding a
/// byte that is not an ASCII digit, other than one leading `+`.
pub proof fn lemma_decimal_rejects(b: Seq<u8>, i: int)
    requires
        0 <= i < b.len(),
        !(48 <= b[i] <= 57),
        i > 0 || b[i] != 43,
    ensures
        decimal_u64(b) is None,
        decimal_u64(Seq::<u8>::empty()) is None,
        decimal_u64(seq![43u8]) is None,
{
    let d = numeral_digits(b);
    if b[0] == 43 {
        assert(d[i - 1] == b[i]);
    } else {
        assert(d[i] == b[i]);
    }
    assert(numeral_digits(seq![43u8]).len() == 0);
}

/// Reads an unsigned decimal numeral as `str::parse::<u64>` does.
pub fn parse_u64(s: &str) -> (r: Option<u64>)
    ensures
        r == decimal_u64(encode_utf8(s@)),
{
    let b = s.as_bytes();
    let ghost d = numeral_digits(b@);
    let start: usize = if b.len() > 0 && b[0] == 43 {
        1
    } else {
        0
    };
    assert(d =~= b@.subrange(start as int, b@.len() as int));
    if start == b.len() {
        return None;
    }
    let mut v: u64 = 0;
    let mut i: usize = start;
    while i < b.len()
        invariant
            b@ == encode_utf8(s@),
            d == b@.subrange(start as int, b@.len() as int),
            d == numeral_digits(b@),
            start < b@.len(),
            start <= i <= b@.len(),
            forall|k: int| start <= k < i ==> is_ascii_digit(#[trigger] b@[k]),
            v == digits_value(b@.subrange(start as int, i as int)),
        decreases b@.len() - i,
    {
        let c = b[i];
        if c < 48 || c > 57 {
            assert(d[i - start] == c);
            assert(!is_ascii_digit(d[i - start]));
            return None;
        }
        let ghost prev = b@.subrange(start as int, i as int);
        assert(b@.subrange(start as int, i + 1).drop_last() =~= prev);
        let digit = (c - 48) as u64;
        let next = match v.checked_mul(10) {
            Some(t) => t.checked_add(digit),
            None => None,
        };
        match next {
            Some(n) => {
                v = n;
                i = i + 1;
            },
            None => {
                proof {
                    let cur = b@.subrange(start as int, i + 1);
                    assert(digits_value(cur) > u64::MAX);
                    if forall|k: int| 0 <= k < d.len() ==> is_ascii_digit(#[trigger] d[k]) {
                        lemma_digits_value_grows(d, i + 1 - start);
                        assert(d.subrange(0, i + 1 - start) =~= cur);
                    }
                }
                return None;
            },
        }
    }
    assert(b@.subrange(start as int, b@.len() as int) =~= d);
    assert forall|k: int| 0 <= k < d.len() implies is_ascii_digit(#[trigger] d[k]) by {
        assert(d[k] == b@[k + start]);
    }
    Some(v)
}

/// The darkening delay in seconds: the command line's `--timeout` when
/// given, else the `TIMEOUT` environment value when it is a decimal `u64`,
/// else the default of 30.
pub open spec fn timeout_secs(cli: Option<u64>, env_value: Option<&str>) -> u64 {
    match cli {
        Some(t) => t,
        None => match env_value {
            Some(text) => match decimal_u64(encode_utf8(text@)) {
                Some(t) => t,
                None => DEFAULT_TIMEOUT_SECS,
            },
            None => DEFAULT_TIMEOUT_SECS,
        },
    }
}

/// The `--timeout` flag always wins: whenever it is given, the delay is its
/// value, whatever the environment holds; with neither flag nor environment
/// value the delay is 30 seconds.
pub proof fn lemma_flag_overrides_environment(t: u64, env_value: Option<&str>)
    ensures
        timeout_secs(Some(t), env_value) == t,
        timeout_secs(None, None) == 30,
{
}

/// Resolves the darkening delay from the `--timeout` flag and the value of
/// the `TIMEOUT` environment variable (`None` when it is unset or not
/// Unicode).
pub fn resolve_timeout(cli: Option<u64>, env_value: Option<&str>) -> (t: u64)
    ensures
        t == timeout_secs(cli, env_value),
        cli matches Some(c) ==> t == c,
        cli is None && env_value is None ==> t == 30,
{
    match cli {
        Some(t) => t,
        None => match env_value {
            Some(text) => match parse_u64(text) {
                Some(t) => t,
                None => DEFAULT_TIMEOUT_SECS,
            },
            None => DEFAULT_TIMEOUT_SECS,
        },
    }
}

/// A report that the screen went dark or woke up.
#[derive(Debug, Clone, Copy, PartialEq, Eq, Structural)]
pub enum ScreenEvent {
    /// A screensaver's `ActiveChanged` signal (freedesktop or KDE).
    ScreenSaverActive { active: bool },
    /// A power state announced by the Wayland DPMS monitor.
    Dpms { state: ScreenPowerState },
}

/// Whether an event says that the screen is dark: a screensaver that became
/// active, or a screen whose power went off.
pub open spec fn screen_dark(event: ScreenEvent) -> bool {
    match event {
        ScreenEvent::ScreenSaverActive { active } => active,
        ScreenEvent::Dpms { state } => state == ScreenPowerState::Off,
    }
}

/// Decides whether a screen event means that the screen is dark.
pub fn is_screen_dark(event: ScreenEvent) -> (dark: bool)
    ensures
        dark == screen_dark(event),
{
    match event {
        ScreenEvent::ScreenSaverActive { active } => active,
        ScreenEvent::Dpms { state } => match state {
            ScreenPowerState::Off => true,
            ScreenPowerState::On => false,
        },
    }
}

/// What the controller does in answer to a screen event.
#[derive(Debug, Clone, Copy, PartialEq, Eq, Structural)]
pub enum ControllerAction {
    /// The screen went dark: abort the pending darkening timer if one is
    /// held (`abort_previous`), then start a new one that darkens the
    /// lighting after the delay.
    ArmDarkTimer { abort_previous: bool },
    /// The screen woke up: abort the pending darkening timer if one is held
    /// (`abort_timer`), then restore the lighting.
    Lighten { abort_timer: bool },
}

/// The controller's memory: whether it holds a darkening timer. A timer that
/// has fired is still held until the next event takes it.
pub struct ScreenController {
    pub timer_held: bool,
}

/// The action for an event of darkness `dark` when a timer is held or not.
pub open spec fn action_for(timer_held: bool, dark: bool) -> ControllerAction {
    if dark {
        ControllerAction::ArmDarkTimer { abort_previous: timer_held }
    } else {
        ControllerAction::Lighten { abort_timer: timer_held }
    }
}

impl ScreenController {
    /// A controller that holds no timer.
    pub fn new() -> (c: ScreenController)
        ensures
            !c.timer_held,
    {
        ScreenController { timer_held: false }
    }

    /// Reacts to a report that the screen is dark (`dark`) or awake.
    pub fn on_screen(&mut self, dark: bool) -> (a: ControllerAction)
        ensures
            a == action_for(old(self).timer_held, dark),
            final(self).timer_held == dark,
    {
        let held = self.timer_held;
        self.timer_held = dark;
        if dark {
            ControllerAction::ArmDarkTimer { abort_previous: held }
        } else {
            ControllerAction::Lighten { abort_timer: held }
        }
    }
}

/// The number of timers an action starts, less the number it aborts.
pub open spec fn timer_balance(a: ControllerAction) -> int {
    match a {
        ControllerAction::ArmDarkTimer { abort_previous } => if abort_previous {
            0
        } else {
            1
        },
        ControllerAction::Lighten { abort_timer } => if abort_timer {
            -1
        } else {
            0
        },
    }
}

/// The actions that a controller holding a timer or not (`held`) takes on
/// the screen reports `darks`, in order.
pub open spec fn actions_for(held: bool, darks: Seq<bool>) -> Seq<ControllerAction>
    decreases darks.len(),
{
    if darks.len() == 0 {
        seq![]
    } else {
        seq![action_for(held, darks[0])] + actions_for(darks[0], darks.drop_first())
    }
}

/// Timers started less timers aborted over a run of actions.
pub open spec fn timers_pending(actions: Seq<ControllerAction>) -> int
    decreases actions.len(),
{
    if actions.len() == 0 {
        0
    } else {
        timer_balance(actions[0]) + timers_pending(actions.drop_first())
    }
}

/// At most one darkening timer is ever pending: over any run of screen
/// reports from a fresh controller, the timers started less those aborted
/// is 1 after a report of darkness and 0 after one of waking (0 before any
/// report).
pub proof fn lemma_one_timer_pending(darks: Seq<bool>)
    ensures
        timers_pending(actions_for(false, darks)) == (if darks.len() > 0 && darks.last() {
            1int
        } else {
            0int
        }),
{
    lemma_pending_from(false, darks);
}

proof fn lemma_pending_from(held: bool, darks: Seq<bool>)
    ensures
        (if held {
            1int
        } else {
            0int
        }) + timers_pending(actions_for(held, darks)) == (if darks.len() > 0 {
            if darks.last() {
                1int
            } else {
                0int
            }
        } else if held {
            1int
        } else {
            0int
        }),
    decreases darks.len(),
{
    if darks.len() > 0 {
        let rest = darks.drop_first();
        lemma_pending_from(darks[0], rest);
        let acts = actions_for(held, darks);
        assert(acts.drop_first() =~= actions_for(darks[0], rest));
        if rest.len() > 0 {
            assert(rest.last() == darks.last());
        } else {
            assert(darks.len() == 1);
        }
    }
}

} // verus!
