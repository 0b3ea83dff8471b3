//! The configuration file: an INI document with an `[actions]` and a
//! `[heuristics]` section.

use vstd::prelude::*;
use crate::number::{
    decimal, lemma_decimal_shape, lemma_parse_decimal_roundtrip, parse_unsigned,
    parse_unsigned_chars,
};
use crate::text::{
    chars_equal, chars_of, lemma_trim_by_ends, lowercase, split_chars, split_on, string_of,
    to_lowercase, trim_white, trim_whitespace, views, white_space, whitespace_test,
};

verus! {

/// `ini::Ini`, a parsed INI document, opaque here.
#[verifier::external_type_specification]
#[verifier::external_body]
pub struct ExIni(ini::Ini);

/// `ini::Properties`, the key-value pairs of one section, opaque here.
#[verifier::external_type_specification]
#[verifier::external_body]
pub struct ExProperties(ini::Properties);

/// The named sections of an INI document, each as the key-value map that
/// `ini_properties` gives: where a name occurs more than once, the first
/// section of that name, as `ini::Ini::section` finds it.
pub uninterp spec fn ini_sections(i: ini::Ini) -> Map<Seq<char>, Map<Seq<char>, Seq<char>>>;

/// The key-value pairs of a section: where a key occurs more than once,
/// the first value, as `ini::Properties::get` finds it.
pub uninterp spec fn ini_properties(p: ini::Properties) -> Map<Seq<char>, Seq<char>>;

/// Calls `ini::Ini::section(Some(name))`. Claims that it finds a section
/// exactly where `ini_sections` has one under `name`, and that what it finds
/// holds the pairs that `ini_sections` lists for it.
#[verifier::external_body]
fn section<'a>(i: &'a ini::Ini, name: &str) -> (r: Option<&'a ini::Properties>)
    ensures
        r is Some <==> ini_sections(*i).contains_key(name@),
        r matches Some(p) ==> ini_properties(*p) == ini_sections(*i)[name@],
{
    i.section(Some(name))
}

/// Calls `ini::Properties::get(key)`. Claims that it finds a value exactly
/// where `ini_properties` has one under `key`, and that value.
#[verifier::external_body]
fn property<'a>(p: &'a ini::Properties, key: &str) -> (r: Option<&'a str>)
    ensures
        r is Some <==> ini_properties(*p).contains_key(key@),
        r matches Some(v) ==> v@ == ini_properties(*p)[key@],
{
    p.get(key)
}

/// The settings read from the configuration file.
pub struct CircadianConfig {
    /// Seconds without input after which the machine counts as idle.
    pub idle_time: u64,
    pub auto_wake: Option<String>,
    pub on_idle: Option<String>,
    pub on_wake: Option<String>,
    pub tty_input: bool,
    pub x11_input: bool,
    pub ssh_block: bool,
    pub smb_block: bool,
    pub audio_block: bool,
    /// The text of the CPU load limit where one is set; it is read as a
    /// floating-point number outside this library.
    pub max_cpu_load: Option<String>,
    pub process_block: Vec<String>,
}

impl Default for CircadianConfig {
    fn default() -> (c: CircadianConfig)
        ensures
            c.idle_time == 0,
            c.auto_wake is None,
            c.on_idle is None,
            c.on_wake is None,
            !c.tty_input,
            !c.x11_input,
            !c.ssh_block,
            !c.smb_block,
            !c.audio_block,
            c.max_cpu_load is None,
            c.process_block@.len() == 0,
    {
        CircadianConfig {
            idle_time: 0,
            auto_wake: None,
            on_idle: None,
            on_wake: None,
            tty_input: false,
            x11_input: false,
            ssh_block: false,
            smb_block: false,
            audio_block: false,
            max_cpu_load: None,
            process_block: Vec::new(),
        }
    }
}

/// The view of an optional string.
pub open spec fn opt_view(o: Option<String>) -> Option<Seq<char>> {
    match o {
        Some(s) => Some(s@),
        None => None,
    }
}

/// The views of a vector of strings.
pub open spec fn string_views(v: Seq<String>) -> Seq<Seq<char>> {
    v.map_values(|s: String| s@)
}

/// The value of `key` in section `sec` of the document.
pub open spec fn setting(sections: Map<Seq<char>, Map<Seq<char>, Seq<char>>>, sec: Seq<char>, key: Seq<char>) -> Option<Seq<char>> {
    if sections.contains_key(sec) && sections[sec].contains_key(key) {
        Some(sections[sec][key])
    } else {
        None
    }
}

/// `s` read as a `u64`, or 0 where it is no number.
pub open spec fn u64_or_zero(s: Seq<char>) -> nat {
    match parse_unsigned(s, u64::MAX as nat) {
        Ok(v) => v,
        Err(_) => 0,
    }
}

/// The idle time that a setting stands for: a number of seconds, or of
/// minutes with the suffix `m`, or of hours with the suffix `h`.
pub open spec fn idle_time_value(x: Seq<char>) -> nat {
    if x.len() == 0 {
        0
    } else if x.last() == 'm' {
        u64_or_zero(x.drop_last()) * 60
    } else if x.last() == 'h' {
        u64_or_zero(x.drop_last()) * 3600
    } else {
        u64_or_zero(x)
    }
}

/// Whether reading the idle time setting `x` succeeds: its last character
/// is a single byte (the setting is split there by byte position) and the
/// seconds fit in a `u64`.
pub open spec fn idle_time_readable(x: Seq<char>) -> bool {
    x.len() > 0 ==> (x.last() as u32) < 128 && idle_time_value(x) <= u64::MAX
}

/// An idle time is written as seconds, as minutes with `m`, or as hours
/// with `h`.
pub proof fn lemma_idle_time_units(n: nat)
    requires
        n <= u64::MAX,
    ensures
        idle_time_value(decimal(n)) == n,
        idle_time_value(decimal(n) + seq!['m']) == n * 60,
        idle_time_value(decimal(n) + seq!['h']) == n * 3600,
{
    lemma_decimal_shape(n);
    lemma_parse_decimal_roundtrip(n, u64::MAX as nat);
    assert((decimal(n) + seq!['m']).drop_last() == decimal(n));
    assert((decimal(n) + seq!['h']).drop_last() == decimal(n));
    assert(decimal(n).last() == decimal(n)[decimal(n).len() - 1]);
}

/// Reads the idle time setting `x` in seconds.
pub fn idle_time_from_setting(x: &str) -> (t: u64)
    requires
        idle_time_readable(x@),
    ensures
        t == idle_time_value(x@),
{
    let c = chars_of(x);
    let n = c.len();
    if n == 0 {
        return 0;
    }
    let last = c[n - 1];
    let body = crate::text::copy_range(c.as_slice(), 0, n - 1);
    assert(body@ == x@.drop_last());
    if last == 'm' {
        let v = match parse_unsigned_chars(body.as_slice(), 18446744073709551615u64) {
            Ok(v) => v,
            Err(_) => 0,
        };
        v * 60
    } else if last == 'h' {
        let v = match parse_unsigned_chars(body.as_slice(), 18446744073709551615u64) {
            Ok(v) => v,
            Err(_) => 0,
        };
        v * 60 * 60
    } else {
        match parse_unsigned_chars(c.as_slice(), 18446744073709551615u64) {
            Ok(v) => v,
            Err(_) => 0,
        }
    }
}


/// Whether a lowercased value reads as "on".
pub open spec fn is_yes(s: Seq<char>) -> bool {
    s == "yes"@ || s == "true"@ || s == "1"@
}

/// A flag: its value lowercased reads as "yes", "true" or "1"; a missing
/// flag counts as "no", which is off.
pub open spec fn flag_value(value: Option<Seq<char>>) -> bool {
    match value {
        Some(v) => is_yes(lowercase(v)),
        None => false,
    }
}

/// An optional setting: present only where its value is not empty.
pub open spec fn nonempty_value(value: Option<Seq<char>>) -> Option<Seq<char>> {
    match value {
        Some(v) => if v.len() > 0 {
            Some(v)
        } else {
            None
        },
        None => None,
    }
}

/// The comma-separated entries of a list setting, trimmed.
pub open spec fn list_value(value: Option<Seq<char>>) -> Seq<Seq<char>> {
    match value {
        Some(v) => split_on(v, ',').map_values(|f: Seq<char>| trim_white(f)),
        None => Seq::<Seq<char>>::empty(),
    }
}

/// The entries of a list setting carry no whitespace at either end.
pub proof fn lemma_list_entries_trimmed(value: Seq<char>)
    ensures
        forall|i: int|
            0 <= i < list_value(Some(value)).len() && #[trigger] list_value(Some(value))[i].len()
                > 0 ==> !white_space(list_value(Some(value))[i][0]) && !white_space(
                list_value(Some(value))[i].last(),
            ),
{
    assert forall|i: int|
        0 <= i < list_value(Some(value)).len() && #[trigger] list_value(Some(value))[i].len()
            > 0 implies !white_space(list_value(Some(value))[i][0]) && !white_space(
        list_value(Some(value))[i].last(),
    ) by {
        let f = split_on(value, ',')[i];
        lemma_trim_by_ends(f, whitespace_test());
    }
}

/// Reads a flag.
fn read_bool(sec: &ini::Properties, key: &str) -> (b: bool)
    ensures
        b == flag_value(if ini_properties(*sec).contains_key(key@) {
            Some(ini_properties(*sec)[key@])
        } else {
            None
        }),
{
    match property(sec, key) {
        Some(v) => {
            let lower = to_lowercase(v);
            is_yes_text(lower.as_str())
        },
        None => {
            proof {
                reveal_strlit("no");
                reveal_strlit("yes");
                reveal_strlit("true");
                reveal_strlit("1");
            }
            let off = is_yes_text("no");
            assert(!off) by {
                assert("no"@.len() == 2);
            }
            off
        },
    }
}

/// Whether `v` is one of the words that switch a flag on: "yes", "true"
/// or "1".
pub fn is_yes_text(v: &str) -> (b: bool)
    ensures
        b == is_yes(v@),
{
    let l = chars_of(v);
    let yes = chars_of("yes");
    let t = chars_of("true");
    let one = chars_of("1");
    chars_equal(l.as_slice(), yes.as_slice()) || chars_equal(l.as_slice(), t.as_slice())
        || chars_equal(l.as_slice(), one.as_slice())
}

/// Reads an optional setting.
fn read_nonempty(sec: &ini::Properties, key: &str) -> (o: Option<String>)
    ensures
        opt_view(o) == nonempty_value(if ini_properties(*sec).contains_key(key@) {
            Some(ini_properties(*sec)[key@])
        } else {
            None
        }),
{
    match property(sec, key) {
        Some(v) => if !v.is_empty() {
            Some(v.to_owned())
        } else {
            None
        },
        None => None,
    }
}

/// The trimmed comma-separated entries of `v`.
pub fn list_entries(v: &str) -> (r: Vec<String>)
    ensures
        string_views(r@) == list_value(Some(v@)),
{
    let c = chars_of(v);
    let fields = split_chars(c.as_slice(), ',');
    let ghost want = split_on(v@, ',').map_values(|f: Seq<char>| trim_white(f));
    let mut r: Vec<String> = Vec::new();
    let mut i: usize = 0;
    while i < fields.len()
        invariant
            i <= fields@.len(),
            views(fields@) == split_on(v@, ','),
            want == split_on(v@, ',').map_values(|f: Seq<char>| trim_white(f)),
            string_views(r@) == want.take(i as int),
        decreases fields@.len() - i,
    {
        let t = trim_whitespace(fields[i].as_slice());
        assert(views(fields@)[i as int] == fields@[i as int]@);
        let s = string_of(t.as_slice());
        let ghost before = r@;
        r.push(s);
        assert(want[i as int] == trim_white(split_on(v@, ',')[i as int]));
        assert(string_views(r@) =~= string_views(before).push(s@));
        assert(want.take(i + 1) =~= want.take(i as int).push(want[i as int]));
        i = i + 1;
    }
    assert(want.take(i as int) == want);
    r
}


/// A flag of the `[heuristics]` section: off where the section is missing.
pub open spec fn heuristic_flag(sections: Map<Seq<char>, Map<Seq<char>, Seq<char>>>, key: Seq<char>) -> bool {
    if sections.contains_key("heuristics"@) {
        flag_value(setting(sections, "heuristics"@, key))
    } else {
        false
    }
}

/// The idle time setting in seconds; 0 where it is missing.
pub open spec fn idle_time_of(sections: Map<Seq<char>, Map<Seq<char>, Seq<char>>>) -> nat {
    match setting(sections, "actions"@, "idle_time"@) {
        Some(x) => idle_time_value(x),
        None => 0,
    }
}

/// Whether reading the document succeeds: it fails only on an idle time
/// setting that `idle_time_readable` rejects.
pub open spec fn config_readable(sections: Map<Seq<char>, Map<Seq<char>, Seq<char>>>) -> bool {
    setting(sections, "actions"@, "idle_time"@) matches Some(x) ==> idle_time_readable(x)
}

/// Whether `c` holds what the document `sections` says.
pub open spec fn config_of(c: CircadianConfig, sections: Map<Seq<char>, Map<Seq<char>, Seq<char>>>) -> bool {
    &&& c.idle_time == idle_time_of(sections)
    &&& opt_view(c.auto_wake) == nonempty_value(setting(sections, "actions"@, "auto_wake"@))
    &&& opt_view(c.on_idle) == nonempty_value(setting(sections, "actions"@, "on_idle"@))
    &&& opt_view(c.on_wake) == nonempty_value(setting(sections, "actions"@, "on_wake"@))
    &&& c.tty_input == heuristic_flag(sections, "tty_input"@)
    &&& c.x11_input == heuristic_flag(sections, "x11_input"@)
    &&& c.ssh_block == heuristic_flag(sections, "ssh_block"@)
    &&& c.smb_block == heuristic_flag(sections, "smb_block"@)
    &&& c.audio_block == heuristic_flag(sections, "audio_block"@)
    &&& opt_view(c.max_cpu_load) == nonempty_value(
        setting(sections, "heuristics"@, "max_cpu_load"@),
    )
    &&& string_views(c.process_block@) == list_value(
        setting(sections, "heuristics"@, "process_block"@),
    )
}

/// Why the idle time setting cannot be read.
#[derive(Clone, Copy, Debug, PartialEq, Eq, Structural)]
pub enum IdleTimeFault {
    /// Its last character takes more than one byte, and the setting is cut
    /// by byte position before it.
    SplitInsideChar,
    /// The seconds it stands for do not fit in a `u64`.
    Overflow,
}

/// Why reading the idle time setting `x` fails, if it does.
pub open spec fn idle_time_fault(x: Seq<char>) -> Option<IdleTimeFault> {
    if x.len() > 0 && (x.last() as u32) >= 128 {
        Some(IdleTimeFault::SplitInsideChar)
    } else if idle_time_value(x) > u64::MAX {
        Some(IdleTimeFault::Overflow)
    } else {
        None
    }
}

/// Why reading the document fails, if it does.
pub open spec fn config_fault(sections: Map<Seq<char>, Map<Seq<char>, Seq<char>>>) -> Option<IdleTimeFault> {
    match setting(sections, "actions"@, "idle_time"@) {
        Some(x) => idle_time_fault(x),
        None => None,
    }
}

/// Why the `[actions]` idle time setting of `i` cannot be read, if so.
fn idle_time_setting_fault(i: &ini::Ini) -> (f: Option<IdleTimeFault>)
    ensures
        f == config_fault(ini_sections(*i)),
        f is None <==> config_readable(ini_sections(*i)),
{
    match section(i, "actions") {
        Some(sec) => match property(sec, "idle_time") {
            Some(x) => {
                let c = chars_of(x);
                let n = c.len();
                if n == 0 {
                    None
                } else {
                    let last = c[n - 1];
                    if (last as u32) >= 128 {
                        Some(IdleTimeFault::SplitInsideChar)
                    } else {
                        let body = crate::text::copy_range(c.as_slice(), 0, n - 1);
                        assert(body@ == x@.drop_last());
                        let v = match parse_unsigned_chars(body.as_slice(), 18446744073709551615u64) {
                            Ok(v) => v,
                            Err(_) => 0,
                        };
                        if last == 'm' {
                            if (v as u128) * 60 <= 18446744073709551615u128 {
                                None
                            } else {
                                Some(IdleTimeFault::Overflow)
                            }
                        } else if last == 'h' {
                            if (v as u128) * 3600 <= 18446744073709551615u128 {
                                None
                            } else {
                                Some(IdleTimeFault::Overflow)
                            }
                        } else {
                            proof {
                                crate::number::lemma_digits_value_bound(x@, u64::MAX as nat);
                                if x@[0] == '+' {
                                    crate::number::lemma_digits_value_bound(x@.drop_first(), u64::MAX as nat);
                                }
                            }
                            None
                        }
                    }
                }
            },
            None => None,
        },
        None => None,
    }
}

/// The settings that the document `i` holds.
pub fn config_from_ini(i: &ini::Ini) -> (c: CircadianConfig)
    requires
        config_readable(ini_sections(*i)),
    ensures
        config_of(c, ini_sections(*i)),
{
    let mut config = CircadianConfig::default();
    assert(string_views(config.process_block@) =~= Seq::<Seq<char>>::empty());
    match section(i, "actions") {
        Some(sec) => {
            config.idle_time = match property(sec, "idle_time") {
                Some(x) => idle_time_from_setting(x),
                None => 0,
            };
            config.auto_wake = read_nonempty(sec, "auto_wake");
            config.on_idle = read_nonempty(sec, "on_idle");
            config.on_wake = read_nonempty(sec, "on_wake");
        },
        None => {},
    }
    match section(i, "heuristics") {
        Some(sec) => {
            config.tty_input = read_bool(sec, "tty_input");
            config.x11_input = read_bool(sec, "x11_input");
            config.ssh_block = read_bool(sec, "ssh_block");
            config.smb_block = read_bool(sec, "smb_block");
            config.audio_block = read_bool(sec, "audio_block");
            config.max_cpu_load = read_nonempty(sec, "max_cpu_load");
            match property(sec, "process_block") {
                Some(p) => {
                    config.process_block = list_entries(p);
                },
                None => {},
            }
        },
        None => {},
    }
    config
}

/// The settings that `i` holds, or why its idle time setting cannot be
/// read (see `idle_time_readable`).
pub fn config_from_ini_checked(i: &ini::Ini) -> (r: Result<CircadianConfig, IdleTimeFault>)
    ensures
        r is Err <==> !config_readable(ini_sections(*i)),
        r matches Err(f) ==> config_fault(ini_sections(*i)) == Some(f),
        r matches Ok(c) ==> config_of(c, ini_sections(*i)),
{
    match idle_time_setting_fault(i) {
        None => Ok(config_from_ini(i)),
        Some(f) => Err(f),
    }
}

} // verus!
