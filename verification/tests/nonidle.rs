use circadian::config::CircadianConfig;
use circadian::error::CircadianError;
use circadian::nonidle::{
    audio_active, audio_state_lines, combine_process_checks, connection_listed, cpu_below_threshold,
    int_error, load_average_fields, load_average_fields_checked, net_connection_pattern,
    process_exists, process_exists_checked, test_nonidle, CpuHistory, NetConnection,
};
use circadian::number::IntErrorKind;

fn err(m: &str) -> CircadianError {
    CircadianError::from_message(m)
}

#[test]
fn load_fields_from_uptime() {
    let out = b" 10:01:02 up 3 days,  2:03,  2 users,  load average: 0,52, 0,58, 0,59\n".to_vec();
    assert_eq!(load_average_fields(out), vec!["0.52", "0.58", "0.59"]);
    let out = b"load average: 1.00, 2.00, 3.00\n".to_vec();
    assert_eq!(load_average_fields_checked(out).unwrap(), vec!["1.00", "2.00", "3.00"]);
    assert_eq!(load_average_fields(b"x  y".to_vec()), vec!["", ""]);
    assert!(load_average_fields_checked("a b é".as_bytes().to_vec()).is_none());
}

#[test]
fn cpu_threshold_selection() {
    let below = vec![true, false, true];
    assert!(cpu_below_threshold(CpuHistory::Min1, &below));
    assert!(!cpu_below_threshold(CpuHistory::Min5, &below));
    assert!(cpu_below_threshold(CpuHistory::Min15, &below));
    assert!(!cpu_below_threshold(CpuHistory::Min1, &vec![]));
}

#[test]
fn cpu_load_below_limit_is_reported_true() {
    // uptime: "... load average: 0.05, 0.20, 0.30"; limit 0.1, compared with `lt`.
    let out = b" 10:00:00 up 1 day,  2:03,  1 user,  load average: 0.05, 0.20, 0.30\n".to_vec();
    let figures = load_average_fields(out);
    let comparisons: Vec<bool> = figures.iter().map(|x| x.parse::<f64>().unwrap() < 0.1).collect();
    assert!(cpu_below_threshold(CpuHistory::Min1, &comparisons));
    assert!(!cpu_below_threshold(CpuHistory::Min5, &comparisons));
}

#[test]
fn decimal_comma_reads_as_point() {
    let comma = load_average_fields(b"load average: 0,05, 0,20, 0,30\n".to_vec());
    let point = load_average_fields(b"load average: 0.05, 0.20, 0.30\n".to_vec());
    assert_eq!(comma, point);
}

#[test]
fn process_counts() {
    assert_eq!(process_exists(b"3\n".to_vec()).ok(), Some(true));
    assert_eq!(process_exists(b"0\n".to_vec()).ok(), Some(false));
    assert_eq!(process_exists(b"x\n".to_vec()).err().unwrap().description(), "invalid digit found in string");
    assert_eq!(process_exists(b"\n".to_vec()).err().unwrap().description(), "cannot parse integer from empty string");
    assert_eq!(process_exists(b"99999999999\n".to_vec()).err().unwrap().description(), "number too large to fit in target type");
    assert!(process_exists_checked(Vec::new()).is_none());
}

#[test]
fn int_error_messages_match_std() {
    let cases = [("", IntErrorKind::Empty), ("x", IntErrorKind::InvalidDigit), ("99999999999", IntErrorKind::PosOverflow)];
    for (s, k) in cases {
        let std_msg = s.parse::<u32>().unwrap_err().to_string();
        assert_eq!(int_error(k).description(), std_msg);
    }
}

#[test]
fn connections() {
    assert_eq!(net_connection_pattern(NetConnection::SSH), "[0-9]+/ssh[d]*");
    assert_eq!(net_connection_pattern(NetConnection::SMB), "[0-9]+/smb[d]*");
    assert!(connection_listed(b"tcp 0 0 1.2.3.4:22 ESTABLISHED 12/sshd\n".to_vec()));
    assert!(!connection_listed(b"\n\n".to_vec()));
    assert!(!connection_listed(Vec::new()));
}

#[test]
fn audio_lines() {
    assert_eq!(audio_state_lines(b"state: RUNNING\n".to_vec()).ok(), Some(1));
    assert_eq!(audio_state_lines(b"state: PREPARED\n".to_vec()).ok(), Some(0));
    assert_eq!(audio_state_lines(b"state: PAUSED\nstate: RUNNING\n".to_vec()).ok(), Some(1));
    assert_eq!(audio_state_lines(Vec::new()).ok(), Some(0));
    let e = audio_state_lines(vec![0xff]).err().unwrap();
    #[allow(deprecated)]
    let expected = std::error::Error::description(&String::from_utf8(vec![0xff]).unwrap_err()).to_string();
    assert_eq!(e.description(), expected);
    assert!(audio_active(&vec![0, 2]));
    assert!(!audio_active(&vec![0, 0]));
    assert!(!audio_active(&vec![]));
}

#[test]
fn process_checks_combine() {
    assert_eq!(combine_process_checks(&vec![Ok(false), Ok(true)]).ok(), Some(true));
    assert_eq!(combine_process_checks(&vec![]).ok(), Some(false));
    let r = combine_process_checks(&vec![Ok(true), Err(err("first")), Err(err("second"))]);
    assert_eq!(r.err().unwrap().description(), "first");
}

#[test]
fn blocking_rules() {
    let mut c = CircadianConfig::default();
    let r = test_nonidle(&c, false, Ok(true), Ok(true), Ok(true), Ok(true), Ok(true));
    assert!(!r.is_blocked);
    c.ssh_block = true;
    let r = test_nonidle(&c, false, Ok(true), Ok(false), Ok(true), Ok(true), Ok(true));
    assert!(!r.is_blocked);
    let r = test_nonidle(&c, false, Ok(true), Err(err("netstat")), Ok(true), Ok(true), Ok(true));
    assert!(r.is_blocked);
    c.process_block = vec!["x".to_string()];
    let r = test_nonidle(&c, false, Ok(false), Ok(false), Ok(false), Ok(false), Ok(true));
    assert!(r.procs_enabled);
    assert!(r.is_blocked);
    let r = test_nonidle(&CircadianConfig::default(), true, Ok(false), Ok(false), Ok(false), Ok(false), Ok(false));
    assert!(r.is_blocked);
    let r = test_nonidle(&CircadianConfig::default(), true, Ok(true), Ok(false), Ok(false), Ok(false), Ok(false));
    assert!(!r.is_blocked);
    let r = test_nonidle(&CircadianConfig::default(), true, Err(err("uptime")), Ok(false), Ok(false), Ok(false), Ok(false));
    assert!(r.is_blocked);
}

#[test]
fn nonidle_summary_text() {
    let mut c = CircadianConfig::default();
    c.audio_block = true;
    let r = test_nonidle(&c, true, Ok(true), Ok(true), Err(err("netstat command has no output")), Ok(false), Ok(false));
    let expected = "CPU load*       : true\n\
SSH             : true\n\
SMB             : netstat command has no output\n\
Audio*          : false\n\
Processes       : false\n\
BLOCKED?        : false\n";
    assert_eq!(r.summary(), expected);
}
