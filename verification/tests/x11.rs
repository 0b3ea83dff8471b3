use circadian::x11::{
    display_idle_seconds, display_of_device, display_user, display_user_filter, idle_over_displays,
    idle_xprintidle, idle_xssstate, uid_of_output,
};

#[test]
fn probe_commands() {
    let c = idle_xprintidle();
    assert_eq!(c.program, "xprintidle");
    assert!(c.args.is_empty());
    let c = idle_xssstate();
    assert_eq!(c.program, "xssstate");
    assert_eq!(c.args, vec!["-i".to_string()]);
}

#[test]
fn display_names() {
    assert_eq!(display_of_device("/tmp/.X11-unix/X0"), ":0");
    assert_eq!(display_of_device("/tmp/.X11-unix/X1"), ":1");
    assert_eq!(display_of_device(""), ":0");
    assert_eq!(display_user_filter(":1"), "{if ($3 ~ /^:1/) print $1}");
}

#[test]
fn users_and_uids() {
    assert_eq!(display_user(b"alice\nbob\n".to_vec()), "alice");
    assert_eq!(display_user(Vec::new()), "");
    assert_eq!(uid_of_output(b"1000\n".to_vec()), 1000);
    assert_eq!(uid_of_output(b"x\n".to_vec()), 0);
    assert_eq!(uid_of_output(Vec::new()), 0);
}

#[test]
fn display_idle() {
    assert_eq!(display_idle_seconds(b"123456\n".to_vec()), 123);
    assert_eq!(display_idle_seconds(b"oops\n".to_vec()), u32::MAX / 1000);
    assert_eq!(idle_over_displays(&vec![30, 7, 12]).ok(), Some(7));
    assert_eq!(idle_over_displays(&vec![]).err().unwrap().description(), "No displays found.");
}
