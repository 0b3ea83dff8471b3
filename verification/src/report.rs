//! The lines of a detection summary: a label padded to sixteen columns,
//! a colon, and a value.

use vstd::prelude::*;
use crate::error::CircadianError;
use crate::number::{decimal, push_decimal};
use crate::text::chars_of;

verus! {

/// `s` followed by spaces up to `width` characters, as `{:<width}` prints it.
pub open spec fn pad_right(s: Seq<char>, width: nat) -> Seq<char> {
    if s.len() >= width {
        s
    } else {
        s + Seq::new((width - s.len()) as nat, |i: int| ' ')
    }
}

/// Padding keeps the text, adds only spaces, and reaches `width`
/// characters without adding any to text that is already as long.
pub proof fn lemma_pad_right(s: Seq<char>, width: nat)
    ensures
        pad_right(s, width).len() == if s.len() >= width {
            s.len()
        } else {
            width
        },
        pad_right(s, width).take(s.len() as int) == s,
        forall|i: int| s.len() <= i < pad_right(s, width).len() ==> pad_right(s, width)[i] == ' ',
{
    assert(pad_right(s, width).take(s.len() as int) =~= s);
}

/// One summary line: `"{:<16}: {}\n"` of `label` and `value`.
pub open spec fn report_line(label: Seq<char>, value: Seq<char>) -> Seq<char> {
    pad_right(label, 16) + ": "@ + value + "\n"@
}

/// A label, with a star where the check it names is enabled.
pub open spec fn marked(label: Seq<char>, enabled: bool) -> Seq<char> {
    if enabled {
        label + "*"@
    } else {
        label
    }
}

/// How `Display` prints a `bool`.
pub open spec fn bool_text(b: bool) -> Seq<char> {
    if b {
        "true"@
    } else {
        "false"@
    }
}

/// How a probe that gives a number is shown: the number, or the error's
/// message.
pub open spec fn number_result_text(r: Result<u32, CircadianError>) -> Seq<char> {
    match r {
        Ok(v) => decimal(v as nat),
        Err(e) => e.0@,
    }
}

/// How a probe that gives a yes or no is shown: `true`, `false`, or the
/// error's message.
pub open spec fn flag_result_text(r: Result<bool, CircadianError>) -> Seq<char> {
    match r {
        Ok(b) => bool_text(b),
        Err(e) => e.0@,
    }
}

/// Appends the characters of `s` to `out`.
pub fn push_str(out: &mut Vec<char>, s: &str)
    ensures
        final(out)@ == old(out)@ + s@,
{
    let c = chars_of(s);
    push_chars(out, c.as_slice());
}

/// Appends `s` to `out`.
pub fn push_chars(out: &mut Vec<char>, s: &[char])
    ensures
        final(out)@ == old(out)@ + s@,
{
    let ghost start = out@;
    let mut i: usize = 0;
    while i < s.len()
        invariant
            i <= s@.len(),
            out@ == start + s@.take(i as int),
        decreases s@.len() - i,
    {
        out.push(s[i]);
        i = i + 1;
        assert(out@ == start + s@.take(i as int));
    }
    assert(s@.take(i as int) == s@);
}

/// Appends `label` padded to sixteen characters.
fn push_padded(out: &mut Vec<char>, label: &[char])
    ensures
        final(out)@ == old(out)@ + pad_right(label@, 16),
{
    let ghost start = out@;
    push_chars(out, label);
    let mut n: usize = label.len();
    while n < 16
        invariant
            n == label@.len() || label@.len() < n <= 16,
            out@ == start + label@ + Seq::new((n - label@.len()) as nat, |i: int| ' '),
        decreases 16 - n,
    {
        let ghost before = out@;
        out.push(' ');
        n = n + 1;
        assert(Seq::new((n - label@.len()) as nat, |i: int| ' ') =~= Seq::new(
            (n - 1 - label@.len()) as nat,
            |i: int| ' ',
        ).push(' '));
    }
    if label.len() >= 16 {
        assert(Seq::new(0, |i: int| ' ') =~= Seq::<char>::empty());
        assert(out@ =~= start + label@);
    } else {
        assert(out@ =~= start + pad_right(label@, 16));
    }
}

/// Appends the summary line of `label` and `value`.
pub fn push_line(out: &mut Vec<char>, label: &[char], value: &[char])
    ensures
        final(out)@ == old(out)@ + report_line(label@, value@),
{
    let ghost start = out@;
    push_padded(out, label);
    push_str(out, ": ");
    push_chars(out, value);
    push_str(out, "\n");
    assert(out@ =~= start + report_line(label@, value@));
}

/// The characters of `label`, with a star where `enabled`.
pub fn marked_label(label: &str, enabled: bool) -> (r: Vec<char>)
    ensures
        r@ == marked(label@, enabled),
{
    let mut r = chars_of(label);
    if enabled {
        push_str(&mut r, "*");
    }
    r
}

/// The text of `b`.
pub fn bool_chars(b: bool) -> (r: Vec<char>)
    ensures
        r@ == bool_text(b),
{
    if b {
        chars_of("true")
    } else {
        chars_of("false")
    }
}

/// The text of a number result.
pub fn number_result_chars(r: &Result<u32, CircadianError>) -> (t: Vec<char>)
    ensures
        t@ == number_result_text(*r),
{
    match r {
        Ok(v) => {
            let mut t: Vec<char> = Vec::new();
            push_decimal(&mut t, *v as u64);
            assert(t@ =~= decimal(*v as nat));
            t
        },
        Err(e) => chars_of(e.0.as_str()),
    }
}

/// The text of a yes-or-no result.
pub fn flag_result_chars(r: &Result<bool, CircadianError>) -> (t: Vec<char>)
    ensures
        t@ == flag_result_text(*r),
{
    match r {
        Ok(b) => bool_chars(*b),
        Err(e) => chars_of(e.0.as_str()),
    }
}

} // verus!
