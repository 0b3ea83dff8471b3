use circadian::config::{
    config_from_ini, config_from_ini_checked, idle_time_from_setting, is_yes_text, list_entries,
    CircadianConfig, IdleTimeFault,
};
use ini::Ini;

const SAMPLE: &str = "[actions]\nidle_time = 2h\nauto_wake = 8:00\non_idle = \non_wake = echo hi\n\n[heuristics]\ntty_input = YES\nx11_input = no\nssh_block = True\nsmb_block = 0\naudio_block = 1\nmax_cpu_load = 0.5\nprocess_block = ^dd$ , ^rsync$,\n";

#[test]
fn idle_time_units() {
    assert_eq!(idle_time_from_setting("42"), 42);
    assert_eq!(idle_time_from_setting("5m"), 300);
    assert_eq!(idle_time_from_setting("2h"), 7200);
    assert_eq!(idle_time_from_setting(""), 0);
    assert_eq!(idle_time_from_setting("abc"), 0);
    assert_eq!(idle_time_from_setting("xm"), 0);
}

#[test]
fn reads_sample_config() {
    let i = Ini::load_from_str(SAMPLE).unwrap();
    let c = config_from_ini(&i);
    assert_eq!(c.idle_time, 7200);
    assert_eq!(c.auto_wake.as_deref(), Some("8:00"));
    assert_eq!(c.on_idle, None);
    assert_eq!(c.on_wake.as_deref(), Some("echo hi"));
    assert!(c.tty_input);
    assert!(!c.x11_input);
    assert!(c.ssh_block);
    assert!(!c.smb_block);
    assert!(c.audio_block);
    assert_eq!(c.max_cpu_load.as_deref(), Some("0.5"));
    assert_eq!(c.process_block, vec!["^dd$".to_string(), "^rsync$".to_string(), String::new()]);
}

#[test]
fn missing_sections_give_defaults() {
    let i = Ini::load_from_str("[other]\na = b\n").unwrap();
    let c = config_from_ini(&i);
    let d = CircadianConfig::default();
    assert_eq!(c.idle_time, d.idle_time);
    assert!(!c.tty_input && !c.x11_input && !c.ssh_block && !c.smb_block && !c.audio_block);
    assert!(c.max_cpu_load.is_none());
    assert!(c.process_block.is_empty());
}

#[test]
fn checked_config_rejects_unsplittable_idle_time() {
    let i = Ini::load_from_str("[actions]\nidle_time = 5é\n").unwrap();
    assert_eq!(config_from_ini_checked(&i).err(), Some(IdleTimeFault::SplitInsideChar));
    let i = Ini::load_from_str("[actions]\nidle_time = 18446744073709551615m\n").unwrap();
    assert_eq!(config_from_ini_checked(&i).err(), Some(IdleTimeFault::Overflow));
    let i = Ini::load_from_str("[actions]\nidle_time = 10m\n").unwrap();
    assert_eq!(config_from_ini_checked(&i).ok().unwrap().idle_time, 600);
}

#[test]
fn list_entries_are_trimmed() {
    assert_eq!(list_entries(" a ,b,\tc\t"), vec!["a".to_string(), "b".to_string(), "c".to_string()]);
    assert_eq!(list_entries(""), vec![String::new()]);
}

#[test]
fn missing_flag_is_off() {
    let i = Ini::load_from_str("[heuristics]\nx11_input = 1\n").unwrap();
    let c = config_from_ini(&i);
    assert!(c.x11_input);
    assert!(!c.tty_input && !c.ssh_block && !c.smb_block && !c.audio_block);
}

#[test]
fn yes_words() {
    assert!(is_yes_text("yes") && is_yes_text("true") && is_yes_text("1"));
    assert!(!is_yes_text("Yes") && !is_yes_text("no") && !is_yes_text(""));
}
