//! How long the machine has been idle: combining the input probes into one
//! idle time, and the time still to wait before it counts as idle.

use vstd::prelude::*;
use crate::config::CircadianConfig;
use crate::error::CircadianError;
use crate::number::{decimal, push_decimal};
use crate::report::{
    bool_chars, bool_text, marked, marked_label, number_result_chars, number_result_text,
    push_line, report_line,
};
use crate::text::{chars_of, string_of};

verus! {

/// What a probe of input idle time gives: seconds, or why it failed.
pub type IdleResult = Result<u32, CircadianError>;

/// The seconds a probe reports, counting a failed probe as `u32::MAX`.
pub open spec fn idle_or_max(r: IdleResult) -> nat {
    match r {
        Ok(v) => v as nat,
        Err(_) => u32::MAX as nat,
    }
}

/// The lesser of two numbers.
pub open spec fn min_nat(a: nat, b: nat) -> nat {
    if a <= b {
        a
    } else {
        b
    }
}

/// The idle time that counts: over the enabled inputs, the least.
pub open spec fn combined_idle(tty_input: bool, x11_input: bool, tty_idle: nat, x11_idle: nat) -> nat {
    if tty_input && x11_input {
        min_nat(tty_idle, x11_idle)
    } else if tty_input {
        tty_idle
    } else {
        x11_idle
    }
}

/// `idle_time as i64`: the value read as a two's complement 64-bit number.
pub open spec fn as_signed(idle_time: nat) -> int {
    if idle_time <= i64::MAX {
        idle_time as int
    } else {
        idle_time - 0x1_0000_0000_0000_0000
    }
}

/// Whether `idle_time as i64 - min_idle as i64` stays within `i64`.
pub open spec fn remain_defined(idle_time: nat, min_idle: nat) -> bool {
    as_signed(idle_time) - min_idle >= i64::MIN
}

/// The seconds still to wait: `max(idle_time as i64 - min_idle as i64, 0)`.
pub open spec fn remaining(idle_time: nat, min_idle: nat) -> nat {
    let d = as_signed(idle_time) - min_idle;
    if d > 0 {
        d as nat
    } else {
        0
    }
}

/// The seconds still to wait before `min_idle` seconds of idleness reach
/// the target `idle_time`.
pub fn idle_remaining(idle_time: u64, min_idle: u32) -> (r: u64)
    requires
        remain_defined(idle_time as nat, min_idle as nat),
    ensures
        r == remaining(idle_time as nat, min_idle as nat),
{
    if idle_time <= 9223372036854775807u64 && idle_time > min_idle as u64 {
        idle_time - min_idle as u64
    } else {
        0
    }
}

/// The result of the idle checks.
pub struct IdleResponse {
    pub w_idle: IdleResult,
    pub w_enabled: bool,
    pub xssstate_idle: IdleResult,
    pub xssstate_enabled: bool,
    pub xprintidle_idle: IdleResult,
    pub xprintidle_enabled: bool,
    pub tty_idle: u32,
    pub tty_enabled: bool,
    pub x11_idle: u32,
    pub x11_enabled: bool,
    pub min_idle: u32,
    pub idle_target: u64,
    pub idle_remain: u64,
    pub is_idle: bool,
}

/// The least idle time of the enabled inputs, for the probe results given.
pub open spec fn min_idle_of(config: CircadianConfig, tty: IdleResult, xssstate: IdleResult, xprintidle: IdleResult) -> nat {
    combined_idle(
        config.tty_input,
        config.x11_input,
        idle_or_max(tty),
        min_nat(idle_or_max(xssstate), idle_or_max(xprintidle)),
    )
}

/// Whether combining these results stays within the arithmetic.
pub open spec fn test_idle_defined(config: CircadianConfig, tty: IdleResult, xssstate: IdleResult, xprintidle: IdleResult) -> bool {
    remain_defined(config.idle_time as nat, min_idle_of(config, tty, xssstate, xprintidle))
}

/// Whether `r` is the response to `config` and these probe results.
pub open spec fn idle_response_of(r: IdleResponse, config: CircadianConfig, tty: IdleResult, xssstate: IdleResult, xprintidle: IdleResult) -> bool {
    &&& r.w_idle == tty
    &&& r.xssstate_idle == xssstate
    &&& r.xprintidle_idle == xprintidle
    &&& r.w_enabled == config.tty_input
    &&& r.tty_enabled == config.tty_input
    &&& r.xssstate_enabled == config.x11_input
    &&& r.xprintidle_enabled == config.x11_input
    &&& r.x11_enabled == config.x11_input
    &&& r.tty_idle == idle_or_max(tty)
    &&& r.x11_idle == min_nat(idle_or_max(xssstate), idle_or_max(xprintidle))
    &&& r.min_idle == min_idle_of(config, tty, xssstate, xprintidle)
    &&& r.idle_target == config.idle_time
    &&& r.idle_remain == remaining(config.idle_time as nat, r.min_idle as nat)
    &&& r.is_idle == (r.idle_remain == 0)
}

fn unwrap_or_max(r: &IdleResult) -> (v: u32)
    ensures
        v == idle_or_max(*r),
{
    match r {
        Ok(v) => *v,
        Err(_) => 4294967295u32,
    }
}

fn min_u32(a: u32, b: u32) -> (m: u32)
    ensures
        m == min_nat(a as nat, b as nat),
{
    if a <= b {
        a
    } else {
        b
    }
}

/// The least idle time of the enabled inputs.
fn min_idle_exec(config: &CircadianConfig, tty: &IdleResult, xssstate: &IdleResult, xprintidle: &IdleResult) -> (m: u32)
    ensures
        m == min_idle_of(*config, *tty, *xssstate, *xprintidle),
{
    let tty_idle = unwrap_or_max(tty);
    let x11_idle = min_u32(unwrap_or_max(xssstate), unwrap_or_max(xprintidle));
    if config.tty_input && config.x11_input {
        min_u32(tty_idle, x11_idle)
    } else if config.tty_input {
        tty_idle
    } else {
        x11_idle
    }
}

/// Combines the results of the `w`, `xssstate` and `xprintidle` probes
/// under `config` into the idle response.
pub fn test_idle(config: &CircadianConfig, tty: IdleResult, xssstate: IdleResult, xprintidle: IdleResult) -> (r: IdleResponse)
    requires
        test_idle_defined(*config, tty, xssstate, xprintidle),
    ensures
        idle_response_of(r, *config, tty, xssstate, xprintidle),
{
    let tty_idle = unwrap_or_max(&tty);
    let x11_idle = min_u32(unwrap_or_max(&xssstate), unwrap_or_max(&xprintidle));
    let min_idle = min_idle_exec(config, &tty, &xssstate, &xprintidle);
    let idle_remain = idle_remaining(config.idle_time, min_idle);
    IdleResponse {
        w_idle: tty,
        w_enabled: config.tty_input,
        xssstate_idle: xssstate,
        xssstate_enabled: config.x11_input,
        xprintidle_idle: xprintidle,
        xprintidle_enabled: config.x11_input,
        tty_idle: tty_idle,
        tty_enabled: config.tty_input,
        x11_idle: x11_idle,
        x11_enabled: config.x11_input,
        min_idle: min_idle,
        idle_target: config.idle_time,
        idle_remain: idle_remain,
        is_idle: idle_remain == 0,
    }
}

/// `test_idle` where its arithmetic stays within `i64`, and `None` where
/// `idle_time as i64 - min_idle as i64` would overflow.
pub fn test_idle_checked(config: &CircadianConfig, tty: IdleResult, xssstate: IdleResult, xprintidle: IdleResult) -> (r: Option<IdleResponse>)
    ensures
        r is None <==> !test_idle_defined(*config, tty, xssstate, xprintidle),
        r matches Some(resp) ==> idle_response_of(resp, *config, tty, xssstate, xprintidle),
{
    let min_idle = min_idle_exec(config, &tty, &xssstate, &xprintidle);
    if config.idle_time > 9223372036854775807u64
        && config.idle_time - 9223372036854775808u64 < min_idle as u64 {
        None
    } else {
        Some(test_idle(config, tty, xssstate, xprintidle))
    }
}


/// For a target within `i64`, the machine counts as idle exactly when its
/// idle time has reached the target, and until then the time still to wait
/// is the difference.
pub proof fn lemma_idle_reached(idle_time: nat, min_idle: nat)
    requires
        idle_time <= i64::MAX,
        min_idle <= u32::MAX,
    ensures
        remain_defined(idle_time, min_idle),
        remaining(idle_time, min_idle) == 0 <==> min_idle >= idle_time,
        remaining(idle_time, min_idle) > 0 ==> remaining(idle_time, min_idle) + min_idle
            == idle_time,
{
}

/// More idle time never means more time to wait.
pub proof fn lemma_remaining_monotonic(idle_time: nat, m1: nat, m2: nat)
    requires
        m1 <= m2,
    ensures
        remaining(idle_time, m2) <= remaining(idle_time, m1),
{
}

/// The idle time that counts is that of one of the inputs, and no greater
/// than that of any enabled input.
pub proof fn lemma_combined_idle_least(tty_input: bool, x11_input: bool, tty_idle: nat, x11_idle: nat)
    ensures
        combined_idle(tty_input, x11_input, tty_idle, x11_idle) == tty_idle || combined_idle(
            tty_input,
            x11_input,
            tty_idle,
            x11_idle,
        ) == x11_idle,
        tty_input ==> combined_idle(tty_input, x11_input, tty_idle, x11_idle) <= tty_idle,
        x11_input ==> combined_idle(tty_input, x11_input, tty_idle, x11_idle) <= x11_idle,
{
}

/// The summary of an idle response, one line per probe and figure.
pub open spec fn idle_summary(r: IdleResponse) -> Seq<char> {
    report_line(marked("w"@, r.w_enabled), number_result_text(r.w_idle)) + report_line(
        marked("xssstate"@, r.xssstate_enabled),
        number_result_text(r.xssstate_idle),
    ) + report_line(marked("xprintidle"@, r.xprintidle_enabled), number_result_text(r.xprintidle_idle))
        + report_line(marked("TTY (combined)"@, r.tty_enabled), decimal(r.tty_idle as nat))
        + report_line(marked("X11 (combined)"@, r.x11_enabled), decimal(r.x11_idle as nat))
        + report_line("Idle (min)"@, decimal(r.min_idle as nat)) + report_line(
        "Idle target"@,
        decimal(r.idle_target as nat),
    ) + report_line("Until idle"@, decimal(r.idle_remain as nat)) + report_line(
        "IDLE?"@,
        bool_text(r.is_idle),
    )
}

/// The decimal digits of `n`.
fn decimal_chars(n: u64) -> (r: Vec<char>)
    ensures
        r@ == decimal(n as nat),
{
    let mut r: Vec<char> = Vec::new();
    push_decimal(&mut r, n);
    assert(r@ =~= decimal(n as nat));
    r
}

impl IdleResponse {
    /// The summary that the daemon prints, as its `Display` shows it.
    pub fn summary(&self) -> (s: String)
        ensures
            s@ == idle_summary(*self),
    {
        let mut out: Vec<char> = Vec::new();
        let l = marked_label("w", self.w_enabled);
        let v = number_result_chars(&self.w_idle);
        push_line(&mut out, l.as_slice(), v.as_slice());
        let l = marked_label("xssstate", self.xssstate_enabled);
        let v = number_result_chars(&self.xssstate_idle);
        push_line(&mut out, l.as_slice(), v.as_slice());
        let l = marked_label("xprintidle", self.xprintidle_enabled);
        let v = number_result_chars(&self.xprintidle_idle);
        push_line(&mut out, l.as_slice(), v.as_slice());
        let l = marked_label("TTY (combined)", self.tty_enabled);
        let v = decimal_chars(self.tty_idle as u64);
        push_line(&mut out, l.as_slice(), v.as_slice());
        let l = marked_label("X11 (combined)", self.x11_enabled);
        let v = decimal_chars(self.x11_idle as u64);
        push_line(&mut out, l.as_slice(), v.as_slice());
        let l = chars_of("Idle (min)");
        let v = decimal_chars(self.min_idle as u64);
        push_line(&mut out, l.as_slice(), v.as_slice());
        let l = chars_of("Idle target");
        let v = decimal_chars(self.idle_target);
        push_line(&mut out, l.as_slice(), v.as_slice());
        let l = chars_of("Until idle");
        let v = decimal_chars(self.idle_remain);
        push_line(&mut out, l.as_slice(), v.as_slice());
        let l = chars_of("IDLE?");
        let v = bool_chars(self.is_idle);
        push_line(&mut out, l.as_slice(), v.as_slice());
        assert(out@ =~= idle_summary(*self));
        string_of(out.as_slice())
    }
}

} // verus!
