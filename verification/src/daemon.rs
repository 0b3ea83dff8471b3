//! The daemon's decisions: which start-up checks to run and when to give
//! up, how long to sleep, and when the clock shows that the machine slept.

use vstd::prelude::*;
use crate::config::CircadianConfig;

verus! {

/// A command run at start-up to see that a configured check can work.
#[derive(Clone, Copy, Debug, PartialEq, Eq, Structural)]
pub enum Probe {
    /// `w`, for `tty_input`.
    W,
    /// `xssstate`, for `x11_input`.
    XssState,
    /// `xprintidle`, for `x11_input` where `xssstate` failed.
    XprintIdle,
    /// `uptime`, for `max_cpu_load`.
    Uptime,
    /// `netstat`, for `ssh_block` and `smb_block`.
    Netstat,
    /// the sound card status files, for `audio_block`.
    Audio,
    /// `pgrep`, for `process_block`.
    Pgrep,
}

/// Where the start-up checks stand: at the beginning, or after a probe.
#[derive(Clone, Copy, Debug, PartialEq, Eq, Structural)]
pub enum StartupStage {
    Begin,
    AfterW,
    AfterXssState,
    AfterXprintIdle,
    AfterUptime,
    AfterNetstat,
    AfterAudio,
    AfterPgrep,
}

/// Why the daemon refuses to start.
#[derive(Clone, Copy, Debug, PartialEq, Eq, Structural)]
pub enum StartupFailure {
    NoInput,
    W,
    X11,
    Uptime,
    Netstat,
    Audio,
    Pgrep,
    IdleTimeDisabled,
}

/// What to do next at start-up.
#[derive(Clone, Copy, Debug, PartialEq, Eq, Structural)]
pub enum StartupAction {
    /// Run the probe, then continue from the stage given.
    Run(Probe, StartupStage),
    /// Stop with the failure given.
    Abort(StartupFailure),
    /// All checks passed.
    Ready,
}

/// The settings that decide the start-up checks.
pub struct StartupSettings {
    pub tty_input: bool,
    pub x11_input: bool,
    pub cpu_limit: bool,
    pub net_block: bool,
    pub audio_block: bool,
    pub process_block: bool,
    pub idle_time_set: bool,
}

/// The settings of `config` that decide the start-up checks;
/// `cpu_limit` says whether a CPU load limit is set.
pub open spec fn settings_of(config: CircadianConfig, cpu_limit: bool) -> StartupSettings {
    StartupSettings {
        tty_input: config.tty_input,
        x11_input: config.x11_input,
        cpu_limit: cpu_limit,
        net_block: config.ssh_block || config.smb_block,
        audio_block: config.audio_block,
        process_block: config.process_block@.len() > 0,
        idle_time_set: config.idle_time != 0,
    }
}

/// The settings that decide the start-up checks.
pub fn startup_settings(config: &CircadianConfig, cpu_limit: bool) -> (s: StartupSettings)
    ensures
        s == settings_of(*config, cpu_limit),
{
    StartupSettings {
        tty_input: config.tty_input,
        x11_input: config.x11_input,
        cpu_limit: cpu_limit,
        net_block: config.ssh_block || config.smb_block,
        audio_block: config.audio_block,
        process_block: config.process_block.len() > 0,
        idle_time_set: config.idle_time != 0,
    }
}

/// The next step from check `k` on (1: `w`, 2: X11, 3: `uptime`,
/// 4: `netstat`, 5: sound, 6: `pgrep`, then the idle time): the first
/// check that the settings enable, or the verdict on the idle time.
pub open spec fn checks_from(s: StartupSettings, k: int) -> StartupAction {
    if k <= 1 && s.tty_input {
        StartupAction::Run(Probe::W, StartupStage::AfterW)
    } else if k <= 2 && s.x11_input {
        StartupAction::Run(Probe::XssState, StartupStage::AfterXssState)
    } else if k <= 3 && s.cpu_limit {
        StartupAction::Run(Probe::Uptime, StartupStage::AfterUptime)
    } else if k <= 4 && s.net_block {
        StartupAction::Run(Probe::Netstat, StartupStage::AfterNetstat)
    } else if k <= 5 && s.audio_block {
        StartupAction::Run(Probe::Audio, StartupStage::AfterAudio)
    } else if k <= 6 && s.process_block {
        StartupAction::Run(Probe::Pgrep, StartupStage::AfterPgrep)
    } else if !s.idle_time_set {
        StartupAction::Abort(StartupFailure::IdleTimeDisabled)
    } else {
        StartupAction::Ready
    }
}

/// The next start-up step at `stage`, where `probe_failed` says whether
/// the probe just run failed.
pub open spec fn next_startup(s: StartupSettings, stage: StartupStage, probe_failed: bool) -> StartupAction {
    match stage {
        StartupStage::Begin => if !s.tty_input && !s.x11_input {
            StartupAction::Abort(StartupFailure::NoInput)
        } else {
            checks_from(s, 1)
        },
        StartupStage::AfterW => if probe_failed {
            StartupAction::Abort(StartupFailure::W)
        } else {
            checks_from(s, 2)
        },
        StartupStage::AfterXssState => if probe_failed {
            StartupAction::Run(Probe::XprintIdle, StartupStage::AfterXprintIdle)
        } else {
            checks_from(s, 3)
        },
        StartupStage::AfterXprintIdle => if probe_failed {
            StartupAction::Abort(StartupFailure::X11)
        } else {
            checks_from(s, 3)
        },
        StartupStage::AfterUptime => if probe_failed {
            StartupAction::Abort(StartupFailure::Uptime)
        } else {
            checks_from(s, 4)
        },
        StartupStage::AfterNetstat => if probe_failed {
            StartupAction::Abort(StartupFailure::Netstat)
        } else {
            checks_from(s, 5)
        },
        StartupStage::AfterAudio => if probe_failed {
            StartupAction::Abort(StartupFailure::Audio)
        } else {
            checks_from(s, 6)
        },
        StartupStage::AfterPgrep => if probe_failed {
            StartupAction::Abort(StartupFailure::Pgrep)
        } else {
            checks_from(s, 7)
        },
    }
}

fn checks_from_exec(s: &StartupSettings, k: u8) -> (a: StartupAction)
    requires
        1 <= k <= 7,
    ensures
        a == checks_from(*s, k as int),
{
    if k <= 1 && s.tty_input {
        StartupAction::Run(Probe::W, StartupStage::AfterW)
    } else if k <= 2 && s.x11_input {
        StartupAction::Run(Probe::XssState, StartupStage::AfterXssState)
    } else if k <= 3 && s.cpu_limit {
        StartupAction::Run(Probe::Uptime, StartupStage::AfterUptime)
    } else if k <= 4 && s.net_block {
        StartupAction::Run(Probe::Netstat, StartupStage::AfterNetstat)
    } else if k <= 5 && s.audio_block {
        StartupAction::Run(Probe::Audio, StartupStage::AfterAudio)
    } else if k <= 6 && s.process_block {
        StartupAction::Run(Probe::Pgrep, StartupStage::AfterPgrep)
    } else if !s.idle_time_set {
        StartupAction::Abort(StartupFailure::IdleTimeDisabled)
    } else {
        StartupAction::Ready
    }
}

/// The next start-up step: at `Begin` the check that an input is enabled;
/// after a probe, stop where it failed (for `xssstate`, try `xprintidle`
/// first), and otherwise go on to the next enabled check.
pub fn startup_step(s: &StartupSettings, stage: StartupStage, probe_failed: bool) -> (a: StartupAction)
    ensures
        a == next_startup(*s, stage, probe_failed),
{
    match stage {
        StartupStage::Begin => if !s.tty_input && !s.x11_input {
            StartupAction::Abort(StartupFailure::NoInput)
        } else {
            checks_from_exec(s, 1)
        },
        StartupStage::AfterW => if probe_failed {
            StartupAction::Abort(StartupFailure::W)
        } else {
            checks_from_exec(s, 2)
        },
        StartupStage::AfterXssState => if probe_failed {
            StartupAction::Run(Probe::XprintIdle, StartupStage::AfterXprintIdle)
        } else {
            checks_from_exec(s, 3)
        },
        StartupStage::AfterXprintIdle => if probe_failed {
            StartupAction::Abort(StartupFailure::X11)
        } else {
            checks_from_exec(s, 3)
        },
        StartupStage::AfterUptime => if probe_failed {
            StartupAction::Abort(StartupFailure::Uptime)
        } else {
            checks_from_exec(s, 4)
        },
        StartupStage::AfterNetstat => if probe_failed {
            StartupAction::Abort(StartupFailure::Netstat)
        } else {
            checks_from_exec(s, 5)
        },
        StartupStage::AfterAudio => if probe_failed {
            StartupAction::Abort(StartupFailure::Audio)
        } else {
            checks_from_exec(s, 6)
        },
        StartupStage::AfterPgrep => if probe_failed {
            StartupAction::Abort(StartupFailure::Pgrep)
        } else {
            checks_from_exec(s, 7)
        },
    }
}

/// The order of the stages.
pub open spec fn stage_rank(stage: StartupStage) -> int {
    match stage {
        StartupStage::Begin => 0,
        StartupStage::AfterW => 1,
        StartupStage::AfterXssState => 2,
        StartupStage::AfterXprintIdle => 3,
        StartupStage::AfterUptime => 4,
        StartupStage::AfterNetstat => 5,
        StartupStage::AfterAudio => 6,
        StartupStage::AfterPgrep => 7,
    }
}

/// Whether the settings call for `probe`.
pub open spec fn probe_enabled(s: StartupSettings, probe: Probe) -> bool {
    match probe {
        Probe::W => s.tty_input,
        Probe::XssState => s.x11_input,
        Probe::XprintIdle => s.x11_input,
        Probe::Uptime => s.cpu_limit,
        Probe::Netstat => s.net_block,
        Probe::Audio => s.audio_block,
        Probe::Pgrep => s.process_block,
    }
}

/// The start-up checks move forward at every step, so they end after at
/// most eight steps; they only run probes that the settings call for
/// (`xprintidle` only after `xssstate`, which `x11_input` calls for); and
/// they accept only a configuration with an idle time and, from the
/// beginning, refuse one with no input enabled.
pub proof fn lemma_startup_steps(s: StartupSettings, stage: StartupStage, probe_failed: bool)
    ensures
        next_startup(s, stage, probe_failed) matches StartupAction::Run(p, next) ==> stage_rank(
            next,
        ) > stage_rank(stage) && (if p == Probe::XprintIdle {
            stage == StartupStage::AfterXssState
        } else {
            probe_enabled(s, p)
        }),
        next_startup(s, stage, probe_failed) == StartupAction::Ready ==> s.idle_time_set,
        (stage == StartupStage::Begin && !s.tty_input && !s.x11_input) ==> next_startup(
            s,
            stage,
            probe_failed,
        ) == StartupAction::Abort(StartupFailure::NoInput),
        (stage != StartupStage::Begin && stage != StartupStage::AfterXssState && probe_failed)
            ==> next_startup(s, stage, probe_failed) is Abort,
{
}

/// At the beginning, the checks start with `w` where `tty_input` is on,
/// and otherwise with `xssstate` where `x11_input` is on; they refuse to
/// start for want of an input only where both are off.
pub proof fn lemma_startup_begin(s: StartupSettings, probe_failed: bool)
    ensures
        s.tty_input ==> next_startup(s, StartupStage::Begin, probe_failed) == StartupAction::Run(
            Probe::W,
            StartupStage::AfterW,
        ),
        (!s.tty_input && s.x11_input) ==> next_startup(s, StartupStage::Begin, probe_failed)
            == StartupAction::Run(Probe::XssState, StartupStage::AfterXssState),
        (s.tty_input || s.x11_input) ==> next_startup(s, StartupStage::Begin, probe_failed)
            != StartupAction::Abort(StartupFailure::NoInput),
{
}

/// A failed probe stops start-up with its own failure, except that a failed
/// `xssstate` leads to `xprintidle`; a passed probe never stops it for a
/// failed command, and where nothing else is enabled start-up ends with
/// the idle time check.
pub proof fn lemma_startup_probe_outcomes(s: StartupSettings, stage: StartupStage)
    ensures
        next_startup(s, StartupStage::AfterW, true) == StartupAction::Abort(StartupFailure::W),
        next_startup(s, StartupStage::AfterXssState, true) == StartupAction::Run(
            Probe::XprintIdle,
            StartupStage::AfterXprintIdle,
        ),
        next_startup(s, StartupStage::AfterXprintIdle, true) == StartupAction::Abort(
            StartupFailure::X11,
        ),
        next_startup(s, StartupStage::AfterUptime, true) == StartupAction::Abort(
            StartupFailure::Uptime,
        ),
        next_startup(s, StartupStage::AfterNetstat, true) == StartupAction::Abort(
            StartupFailure::Netstat,
        ),
        next_startup(s, StartupStage::AfterAudio, true) == StartupAction::Abort(
            StartupFailure::Audio,
        ),
        next_startup(s, StartupStage::AfterPgrep, true) == StartupAction::Abort(
            StartupFailure::Pgrep,
        ),
        stage != StartupStage::Begin ==> match next_startup(s, stage, false) {
            StartupAction::Abort(f) => f == StartupFailure::IdleTimeDisabled && !s.idle_time_set,
            _ => true,
        },
        (s.idle_time_set && !s.cpu_limit && !s.net_block && !s.audio_block && !s.process_block)
            ==> next_startup(s, StartupStage::AfterXssState, false) == StartupAction::Ready,
        next_startup(s, StartupStage::AfterPgrep, false) == (if s.idle_time_set {
            StartupAction::Ready
        } else {
            StartupAction::Abort(StartupFailure::IdleTimeDisabled)
        }),
{
}

/// The message printed before exiting on `f`.
pub open spec fn failure_text(f: StartupFailure) -> Seq<char> {
    match f {
        StartupFailure::NoInput => "tty_input or x11_input must be enabled.  Exiting."@,
        StartupFailure::W => "'w' command required by tty_input failed.  Exiting."@,
        StartupFailure::X11 => "Both 'xssstate' and 'xprintidle' commands required by x11_input failed.  Exiting."@,
        StartupFailure::Uptime => "'uptime' command required by max_cpu_load failed.  Exiting."@,
        StartupFailure::Netstat => "'netstat' command required by ssh/smb_block failed.  Exiting."@,
        StartupFailure::Audio => "'/proc/asound/' required by audio_block is unreadable.  Exiting."@,
        StartupFailure::Pgrep => "'pgrep' required by process_block failed.  Exiting."@,
        StartupFailure::IdleTimeDisabled => "Idle time disabled.  Nothing to do.  Exiting."@,
    }
}

/// The message printed before exiting on `f`.
pub fn failure_message(f: StartupFailure) -> (m: String)
    ensures
        m@ == failure_text(f),
{
    match f {
        StartupFailure::NoInput => "tty_input or x11_input must be enabled.  Exiting.".to_owned(),
        StartupFailure::W => "'w' command required by tty_input failed.  Exiting.".to_owned(),
        StartupFailure::X11 => "Both 'xssstate' and 'xprintidle' commands required by x11_input failed.  Exiting.".to_owned(),
        StartupFailure::Uptime => "'uptime' command required by max_cpu_load failed.  Exiting.".to_owned(),
        StartupFailure::Netstat => "'netstat' command required by ssh/smb_block failed.  Exiting.".to_owned(),
        StartupFailure::Audio => "'/proc/asound/' required by audio_block is unreadable.  Exiting.".to_owned(),
        StartupFailure::Pgrep => "'pgrep' required by process_block failed.  Exiting.".to_owned(),
        StartupFailure::IdleTimeDisabled => "Idle time disabled.  Nothing to do.  Exiting.".to_owned(),
    }
}

/// The length in milliseconds of one slice of sleep.
pub open spec fn sleep_chunk_ms() -> nat {
    500
}

/// How many slices of 500 ms to sleep: the time still to wait, but at
/// least 5000, in slices.
pub open spec fn chunk_count(idle_remain: nat) -> nat {
    (if idle_remain >= 5000 { idle_remain } else { 5000 }) / sleep_chunk_ms()
}

/// How many slices of 500 ms to sleep before testing idleness again.
pub fn sleep_chunks(idle_remain: u64) -> (n: u64)
    ensures
        n == chunk_count(idle_remain as nat),
{
    let sleep_time = if idle_remain >= 5000 { idle_remain } else { 5000 };
    sleep_time / 500
}

/// The daemon sleeps at least five seconds, in whole slices, and no
/// longer than the wait still to go where that is longer.
pub proof fn lemma_sleep_bounds(idle_remain: nat)
    ensures
        chunk_count(idle_remain) >= 10,
        chunk_count(idle_remain) * sleep_chunk_ms() <= if idle_remain >= 5000 {
            idle_remain
        } else {
            5000
        },
        (if idle_remain >= 5000 {
            idle_remain
        } else {
            5000
        }) < (chunk_count(idle_remain) + 1) * sleep_chunk_ms(),
{
}

/// What the watchdog sees in the clock.
pub struct WatchdogCheck {
    /// More than two minutes passed since the last kick: the machine slept.
    pub wake_detected: bool,
    /// More than a minute passed since the last kick: kick it again.
    pub kick: bool,
}

/// The watchdog's reading of the clock at `now`, last kicked at `start`
/// (both in seconds).
pub fn watchdog_check(start: i64, now: i64) -> (w: WatchdogCheck)
    requires
        start <= i64::MAX - 120,
    ensures
        w.wake_detected == (start + 120 < now),
        w.kick == (start + 60 < now),
{
    WatchdogCheck { wake_detected: start + 120 < now, kick: start + 60 < now }
}

/// A detected wake always comes with a kick of the watchdog.
pub proof fn lemma_wake_kicks(start: int, now: int)
    ensures
        start + 120 < now ==> start + 60 < now,
{
}

} // verus!
