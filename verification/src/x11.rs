//! X11 idle time: one probe per running display, run as the display's user.

use vstd::prelude::*;
use crate::config::string_views;
use crate::error::CircadianError;
use crate::idle::IdleResult;
use crate::number::{parse_unsigned, parse_unsigned_chars};
use crate::report::push_str;
use crate::text::{
    chars_of, chars_of_utf8_or_empty, lemma_split_on_len, split_chars, split_on, string_of,
    utf8_or_empty,
};

verus! {

/// A program that prints the idle time of the display named in `DISPLAY`,
/// in milliseconds, with its arguments.
pub struct IdleCommand {
    pub program: String,
    pub args: Vec<String>,
}

/// The `xprintidle` probe: no arguments.
pub fn idle_xprintidle() -> (c: IdleCommand)
    ensures
        c.program@ == "xprintidle"@,
        string_views(c.args@) == Seq::<Seq<char>>::empty(),
{
    let c = IdleCommand { program: "xprintidle".to_owned(), args: Vec::new() };
    assert(string_views(c.args@) =~= Seq::<Seq<char>>::empty());
    c
}

/// The `xssstate` probe: `xssstate -i`.
pub fn idle_xssstate() -> (c: IdleCommand)
    ensures
        c.program@ == "xssstate"@,
        string_views(c.args@) == seq!["-i"@],
{
    let mut args: Vec<String> = Vec::new();
    args.push("-i".to_owned());
    let c = IdleCommand { program: "xssstate".to_owned(), args: args };
    assert(string_views(c.args@) =~= seq!["-i"@]);
    c
}

/// The display name of an X socket path: a colon and the path's last
/// character (`'0'` for an empty path).
pub open spec fn display_name(device: Seq<char>) -> Seq<char> {
    seq![':', if device.len() > 0 { device.last() } else { '0' }]
}

/// The display name of the X socket `device`.
pub fn display_of_device(device: &str) -> (d: String)
    ensures
        d@ == display_name(device@),
{
    let c = chars_of(device);
    let last = if c.len() > 0 { c[c.len() - 1] } else { '0' };
    let mut v: Vec<char> = Vec::new();
    v.push(':');
    v.push(last);
    assert(v@ =~= display_name(device@));
    string_of(v.as_slice())
}

/// The `awk` program that prints the user of the sessions on `display`.
pub open spec fn user_filter(display: Seq<char>) -> Seq<char> {
    "{if ($3 ~ /^"@ + display + "/) print $1}"@
}

/// The `awk` program that picks, from `w -hus`, the users on `display`.
pub fn display_user_filter(display: &str) -> (f: String)
    ensures
        f@ == user_filter(display@),
{
    let mut v: Vec<char> = Vec::new();
    push_str(&mut v, "{if ($3 ~ /^");
    push_str(&mut v, display);
    push_str(&mut v, "/) print $1}");
    assert(v@ =~= user_filter(display@));
    string_of(v.as_slice())
}

/// The first line of the text that `bytes` encode.
pub open spec fn first_line(bytes: Seq<u8>) -> Seq<char> {
    split_on(utf8_or_empty(bytes), '\n')[0]
}

/// The user that owns the display: the first line of the `awk` output.
pub fn display_user(stdout: Vec<u8>) -> (u: String)
    ensures
        u@ == first_line(stdout@),
{
    let text = chars_of_utf8_or_empty(stdout);
    let lines = split_chars(text.as_slice(), '\n');
    proof {
        lemma_split_on_len(text@, '\n');
    }
    assert(lines@[0]@ == crate::text::views(lines@)[0]);
    string_of(lines[0].as_slice())
}

/// The text that `bytes` encode, without its last character: the output
/// of a command without its line end, as `String::pop` leaves it.
pub open spec fn without_last(bytes: Seq<u8>) -> Seq<char> {
    let t = utf8_or_empty(bytes);
    if t.len() > 0 {
        t.drop_last()
    } else {
        t
    }
}

/// The characters of `bytes` without the last one.
fn chars_without_last(stdout: Vec<u8>) -> (v: Vec<char>)
    ensures
        v@ == without_last(stdout@),
{
    let mut t = chars_of_utf8_or_empty(stdout);
    if t.len() > 0 {
        t.pop();
    }
    t
}

/// The user id printed by `id -u`: 0 where it is no number.
pub open spec fn uid_value(bytes: Seq<u8>) -> nat {
    match parse_unsigned(without_last(bytes), u32::MAX as nat) {
        Ok(v) => v,
        Err(_) => 0,
    }
}

/// Reads the user id from the output of `id -u`.
pub fn uid_of_output(stdout: Vec<u8>) -> (uid: u32)
    ensures
        uid == uid_value(stdout@),
{
    let t = chars_without_last(stdout);
    match parse_unsigned_chars(t.as_slice(), 4294967295u64) {
        Ok(v) => v as u32,
        Err(_) => 0,
    }
}

/// The idle seconds of one display: the probe prints milliseconds; what is
/// no number counts as `u32::MAX` milliseconds.
pub open spec fn display_idle_value(bytes: Seq<u8>) -> nat {
    match parse_unsigned(without_last(bytes), u32::MAX as nat) {
        Ok(v) => v / 1000,
        Err(_) => u32::MAX as nat / 1000,
    }
}

/// Reads the idle seconds of one display from its probe's output.
pub fn display_idle_seconds(stdout: Vec<u8>) -> (secs: u32)
    ensures
        secs == display_idle_value(stdout@),
{
    let t = chars_without_last(stdout);
    let ms: u32 = match parse_unsigned_chars(t.as_slice(), 4294967295u64) {
        Ok(v) => v as u32,
        Err(_) => 4294967295u32,
    };
    ms / 1000
}

/// The least of `v`.
pub open spec fn seq_min(v: Seq<u32>) -> nat
    decreases v.len(),
{
    if v.len() == 0 {
        u32::MAX as nat
    } else {
        let m = seq_min(v.drop_last());
        if (v.last() as nat) < m {
            v.last() as nat
        } else {
            m
        }
    }
}

/// The least of a non-empty list is one of its elements and no greater
/// than any of them.
pub proof fn lemma_seq_min_least(v: Seq<u32>)
    ensures
        v.len() > 0 ==> exists|i: int| 0 <= i < v.len() && v[i] == seq_min(v),
        forall|i: int| 0 <= i < v.len() ==> seq_min(v) <= #[trigger] v[i],
    decreases v.len(),
{
    if v.len() > 0 {
        let init = v.drop_last();
        lemma_seq_min_least(init);
        assert forall|i: int| 0 <= i < v.len() implies seq_min(v) <= #[trigger] v[i] by {
            if i < v.len() - 1 {
                assert(v[i] == init[i]);
            }
        }
        if v.len() == 1 {
            assert(seq_min(init) == u32::MAX as nat);
            assert(v[0] == v.last());
        } else if seq_min(v) == seq_min(init) {
            let i = choose|i: int| 0 <= i < init.len() && init[i] == seq_min(init);
            assert(v[i] == init[i]);
        } else {
            assert(v[v.len() - 1] == v.last());
        }
    }
}

/// The X11 idle time over all displays: the least of them, or an error
/// where there was no display.
pub fn idle_over_displays(display_mins: &Vec<u32>) -> (r: IdleResult)
    ensures
        display_mins@.len() == 0 ==> (r matches Err(e) && e.0@ == "No displays found."@),
        display_mins@.len() > 0 ==> r == Ok::<u32, CircadianError>(seq_min(display_mins@) as u32),
        r matches Ok(m) ==> (exists|i: int| 0 <= i < display_mins@.len() && display_mins@[i] == m)
            && (forall|i: int| 0 <= i < display_mins@.len() ==> m <= display_mins@[i]),
{
    proof {
        lemma_seq_min_least(display_mins@);
    }
    if display_mins.len() == 0 {
        return Err(CircadianError::from_message("No displays found."));
    }
    let mut acc: u32 = 4294967295u32;
    let mut i: usize = 0;
    while i < display_mins.len()
        invariant
            i <= display_mins@.len(),
            acc == seq_min(display_mins@.take(i as int)),
        decreases display_mins@.len() - i,
    {
        assert(display_mins@.take(i + 1).drop_last() == display_mins@.take(i as int));
        if display_mins[i] < acc {
            acc = display_mins[i];
        }
        i = i + 1;
    }
    assert(display_mins@.take(i as int) == display_mins@);
    Ok(acc)
}

} // verus!
