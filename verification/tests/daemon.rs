use circadian::config::CircadianConfig;
use circadian::daemon::{
    failure_message, sleep_chunks, startup_settings, startup_step, watchdog_check, Probe,
    StartupAction, StartupFailure, StartupStage,
};

#[test]
fn startup_needs_an_input() {
    let s = startup_settings(&CircadianConfig::default(), false);
    assert_eq!(startup_step(&s, StartupStage::Begin, false), StartupAction::Abort(StartupFailure::NoInput));
    assert_eq!(failure_message(StartupFailure::NoInput), "tty_input or x11_input must be enabled.  Exiting.");
}

#[test]
fn startup_runs_enabled_probes_in_order() {
    let mut c = CircadianConfig::default();
    c.tty_input = true;
    c.x11_input = true;
    c.smb_block = true;
    c.idle_time = 600;
    let s = startup_settings(&c, true);
    assert_eq!(startup_step(&s, StartupStage::Begin, false), StartupAction::Run(Probe::W, StartupStage::AfterW));
    assert_eq!(startup_step(&s, StartupStage::AfterW, true), StartupAction::Abort(StartupFailure::W));
    assert_eq!(startup_step(&s, StartupStage::AfterW, false), StartupAction::Run(Probe::XssState, StartupStage::AfterXssState));
    assert_eq!(startup_step(&s, StartupStage::AfterXssState, true), StartupAction::Run(Probe::XprintIdle, StartupStage::AfterXprintIdle));
    assert_eq!(startup_step(&s, StartupStage::AfterXprintIdle, true), StartupAction::Abort(StartupFailure::X11));
    assert_eq!(startup_step(&s, StartupStage::AfterXssState, false), StartupAction::Run(Probe::Uptime, StartupStage::AfterUptime));
    assert_eq!(startup_step(&s, StartupStage::AfterUptime, false), StartupAction::Run(Probe::Netstat, StartupStage::AfterNetstat));
    assert_eq!(startup_step(&s, StartupStage::AfterNetstat, false), StartupAction::Ready);
}

#[test]
fn startup_needs_idle_time() {
    let mut c = CircadianConfig::default();
    c.x11_input = true;
    let s = startup_settings(&c, false);
    assert_eq!(startup_step(&s, StartupStage::AfterXssState, false), StartupAction::Abort(StartupFailure::IdleTimeDisabled));
    assert_eq!(failure_message(StartupFailure::IdleTimeDisabled), "Idle time disabled.  Nothing to do.  Exiting.");
}

#[test]
fn sleep_slices() {
    assert_eq!(sleep_chunks(0), 10);
    assert_eq!(sleep_chunks(5000), 10);
    assert_eq!(sleep_chunks(7250), 14);
}

#[test]
fn watchdog() {
    let w = watchdog_check(1000, 1061);
    assert!(w.kick && !w.wake_detected);
    let w = watchdog_check(1000, 1121);
    assert!(w.kick && w.wake_detected);
    let w = watchdog_check(1000, 1060);
    assert!(!w.kick && !w.wake_detected);
}
