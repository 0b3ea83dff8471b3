use circadian::config::CircadianConfig;
use circadian::error::CircadianError;
use circadian::idle::{idle_remaining, test_idle, test_idle_checked};

fn config(tty: bool, x11: bool, idle_time: u64) -> CircadianConfig {
    let mut c = CircadianConfig::default();
    c.tty_input = tty;
    c.x11_input = x11;
    c.idle_time = idle_time;
    c
}

fn err(m: &str) -> CircadianError {
    CircadianError::from_message(m)
}

#[test]
fn remaining_counts_down() {
    assert_eq!(idle_remaining(600, 100), 500);
    assert_eq!(idle_remaining(600, 600), 0);
    assert_eq!(idle_remaining(600, 4000), 0);
    // A target beyond i64 wraps to a negative number.
    assert_eq!(idle_remaining(1u64 << 63 | 5, 0), 0);
}

#[test]
fn combines_both_inputs() {
    let r = test_idle(&config(true, true, 600), Ok(100), Ok(50), Ok(70));
    assert_eq!(r.tty_idle, 100);
    assert_eq!(r.x11_idle, 50);
    assert_eq!(r.min_idle, 50);
    assert_eq!(r.idle_remain, 550);
    assert!(!r.is_idle);
    assert_eq!(r.idle_target, 600);
}

#[test]
fn failed_probes_count_as_max() {
    let r = test_idle(&config(true, false, 600), Err(err("no w")), Ok(5), Ok(5));
    assert_eq!(r.tty_idle, u32::MAX);
    assert_eq!(r.min_idle, u32::MAX);
    assert!(r.is_idle);
    let r = test_idle(&config(false, true, 600), Ok(1), Err(err("a")), Ok(700));
    assert_eq!(r.x11_idle, 700);
    assert_eq!(r.min_idle, 700);
    assert!(r.is_idle);
}

#[test]
fn tty_off_uses_x11_even_when_x11_off() {
    let r = test_idle(&config(false, false, 600), Ok(1), Ok(30), Ok(40));
    assert_eq!(r.min_idle, 30);
    assert_eq!(r.idle_remain, 570);
}

#[test]
fn checked_refuses_overflow() {
    let huge = config(true, false, 1u64 << 63);
    assert!(test_idle_checked(&huge, Ok(5), Ok(0), Ok(0)).is_none());
    assert!(test_idle_checked(&huge, Ok(0), Ok(0), Ok(0)).is_some());
    assert!(test_idle_checked(&config(true, false, 10), Ok(5), Ok(0), Ok(0)).is_some());
}

#[test]
fn idle_summary_text() {
    let r = test_idle(&config(true, true, 600), Ok(100), Err(err("No displays found.")), Ok(70));
    let expected = "w*              : 100\n\
xssstate*       : No displays found.\n\
xprintidle*     : 70\n\
TTY (combined)* : 100\n\
X11 (combined)* : 70\n\
Idle (min)      : 70\n\
Idle target     : 600\n\
Until idle      : 530\n\
IDLE?           : false\n";
    assert_eq!(r.summary(), expected);
}

#[test]
fn more_idle_means_less_wait() {
    let mut last = u64::MAX;
    for m in [0u32, 10, 100, 599, 600, 601, u32::MAX] {
        let r = idle_remaining(600, m);
        assert!(r <= last);
        last = r;
    }
}
