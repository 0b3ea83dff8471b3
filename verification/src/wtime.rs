//! Idle times as the `w` command prints them: "12.34s", "5:07" or "1:02m".

use vstd::prelude::*;
use crate::error::CircadianError;
use crate::number::{
    decimal, lemma_decimal_shape, lemma_parse_decimal_roundtrip, parse_unsigned,
    parse_unsigned_chars,
};
use crate::text::{
    chars_of, chars_of_utf8_or_empty, lemma_split_on_pair, split_chars, split_on, string_of,
    trim_char, trim_matches_char, utf8_or_empty, views,
};

verus! {

/// `regex::Regex`, a compiled regular expression, opaque here.
#[verifier::external_type_specification]
#[verifier::external_body]
pub struct ExRegex(regex::Regex);

/// What `regex::Regex::new` says of `pattern`: `None` where it compiles, and
/// otherwise the text of its error's deprecated `description` (the syntax
/// error's message, or a fixed phrase for an oversized program), which
/// depends on the pattern alone.
pub uninterp spec fn regex_build_error(pattern: Seq<char>) -> Option<Seq<char>>;

/// Whether `regex::Regex::new` accepts `pattern`.
pub open spec fn regex_compiles(pattern: Seq<char>) -> bool {
    regex_build_error(pattern) is None
}

/// Whether the regular expression `pattern`, compiled by
/// `regex::Regex::new`, matches somewhere in `haystack`.
pub uninterp spec fn regex_matches(pattern: Seq<char>, haystack: Seq<char>) -> bool;

/// A compiled regular expression together with its source text.
pub struct Pattern {
    source: String,
    compiled: regex::Regex,
}

impl View for Pattern {
    type V = Seq<char>;

    closed spec fn view(&self) -> Seq<char> {
        self.source@
    }
}

/// Calls `regex::Regex::new`, and on failure turns its `regex::Error` into
/// the text of its deprecated `description`. Claims that it succeeds
/// exactly where `regex_build_error(pattern@)` is `None`, that the error
/// text is the one that name gives, and that the compiled expression is
/// kept beside a copy of its pattern.
#[verifier::external_body]
#[allow(deprecated)]
fn compile(pattern: &str) -> (r: Result<Pattern, String>)
    ensures
        r is Ok <==> regex_build_error(pattern@) is None,
        r matches Ok(p) ==> p@ == pattern@,
        r matches Err(t) ==> regex_build_error(pattern@) == Some(t@),
{
    match regex::Regex::new(pattern) {
        Ok(re) => Ok(Pattern { source: pattern.to_string(), compiled: re }),
        Err(e) => Err(std::error::Error::description(&e).to_string()),
    }
}

/// Calls `regex::Regex::is_match`. Claims that the answer is
/// `regex_matches` of the pattern and the haystack.
#[verifier::external_body]
fn is_match(p: &Pattern, haystack: &str) -> (b: bool)
    ensures
        b == regex_matches(p@, haystack@),
{
    p.compiled.is_match(haystack)
}

/// The error for a pattern that did not compile, carrying the text that
/// `compile` gives for the `regex::Error`.
fn pattern_error(text: String) -> (e: CircadianError)
    ensures
        e.0@ == text@,
{
    CircadianError(text)
}

/// Seconds with a fraction: "12.34s".
pub open spec fn seconds_pattern() -> Seq<char> {
    "^\\d+.\\d+s$"@
}

/// Minutes and seconds: "5:07".
pub open spec fn minutes_pattern() -> Seq<char> {
    "^\\d+:\\d+$"@
}

/// Hours and minutes: "1:02m".
pub open spec fn hours_pattern() -> Seq<char> {
    "^\\d+:\\d+m$"@
}

/// The error text of the first of the three patterns that does not compile.
pub open spec fn patterns_error() -> Seq<char> {
    if !regex_compiles(seconds_pattern()) {
        regex_build_error(seconds_pattern())->Some_0
    } else if !regex_compiles(minutes_pattern()) {
        regex_build_error(minutes_pattern())->Some_0
    } else {
        regex_build_error(hours_pattern())->Some_0
    }
}

/// Whether all three patterns compile.
pub open spec fn patterns_compile() -> bool {
    regex_compiles(seconds_pattern()) && regex_compiles(minutes_pattern()) && regex_compiles(
        hours_pattern(),
    )
}

/// The three forms an idle time takes.
#[derive(Clone, Copy, Debug, PartialEq, Eq, Structural)]
pub enum WTimeFormat {
    Seconds,
    MinutesSeconds,
    HoursMinutes,
}

/// The first form whose pattern matches `s`.
pub open spec fn w_time_format(s: Seq<char>) -> Option<WTimeFormat> {
    if regex_matches(seconds_pattern(), s) {
        Some(WTimeFormat::Seconds)
    } else if regex_matches(minutes_pattern(), s) {
        Some(WTimeFormat::MinutesSeconds)
    } else if regex_matches(hours_pattern(), s) {
        Some(WTimeFormat::HoursMinutes)
    } else {
        None
    }
}

/// Field `i` read as a `u32`, or 0 where it is missing or no number.
pub open spec fn field_or_zero(fields: Seq<Seq<char>>, i: int) -> nat {
    if 0 <= i < fields.len() {
        match parse_unsigned(fields[i], u32::MAX as nat) {
            Ok(v) => v,
            Err(_) => 0,
        }
    } else {
        0
    }
}

/// Hours, minutes and seconds read from `s` in the form `f`.
pub open spec fn w_time_parts(s: Seq<char>, f: WTimeFormat) -> (nat, nat, nat) {
    match f {
        WTimeFormat::Seconds => {
            let fields = split_on(trim_char(s, 's'), '.');
            (0, 0, field_or_zero(fields, 0))
        },
        WTimeFormat::MinutesSeconds => {
            let fields = split_on(s, ':');
            (0, field_or_zero(fields, 0), field_or_zero(fields, 1))
        },
        WTimeFormat::HoursMinutes => {
            let fields = split_on(trim_char(s, 'm'), ':');
            (field_or_zero(fields, 0), field_or_zero(fields, 1), 0)
        },
    }
}

/// The idle time in seconds that `s` in the form `f` stands for.
pub open spec fn w_time_total(s: Seq<char>, f: WTimeFormat) -> nat {
    let (h, m, sec) = w_time_parts(s, f);
    h * 3600 + m * 60 + sec
}

/// The seconds that `parse_w_time` reads from `s`, or `None` where it fails.
pub open spec fn w_time_seconds(s: Seq<char>) -> Option<nat> {
    if patterns_compile() {
        match w_time_format(s) {
            Some(f) => Some(w_time_total(s, f)),
            None => None,
        }
    } else {
        None
    }
}

/// Whether reading `s` stays within `u32` (the arithmetic panics otherwise).
pub open spec fn w_time_in_range(s: Seq<char>) -> bool {
    w_time_seconds(s) matches Some(v) ==> v <= u32::MAX
}

/// What `parse_w_time(s)` returns: the seconds where `s` has one of the
/// three forms, "Invalid idle format" where the patterns compiled and none
/// matched, and the error text of the first pattern that did not compile.
pub open spec fn w_time_outcome(s: Seq<char>, r: Result<u32, CircadianError>) -> bool {
    match w_time_seconds(s) {
        Some(v) => r == Ok::<u32, CircadianError>(v as u32),
        None => {
            &&& r is Err
            &&& patterns_compile() ==> r->Err_0.0@ == "Invalid idle format"@
            &&& !patterns_compile() ==> r->Err_0.0@ == patterns_error()
        },
    }
}

/// Field `i` of `fields` read as a `u32`, or 0.
fn field_value(fields: &Vec<Vec<char>>, i: usize) -> (v: u64)
    ensures
        v == field_or_zero(views(fields@), i as int),
        v <= u32::MAX,
{
    if i < fields.len() {
        let r = parse_unsigned_chars(fields[i].as_slice(), 4294967295u64);
        assert(views(fields@)[i as int] == fields@[i as int]@);
        match r {
            Ok(v) => v,
            Err(_) => 0,
        }
    } else {
        0
    }
}

/// The seconds that `s` in the form `f` stands for.
pub fn w_time_total_exec(s: &[char], f: WTimeFormat) -> (t: u64)
    ensures
        t == w_time_total(s@, f),
{
    match f {
        WTimeFormat::Seconds => {
            let trimmed = trim_matches_char(s, 's');
            let fields = split_chars(trimmed.as_slice(), '.');
            field_value(&fields, 0)
        },
        WTimeFormat::MinutesSeconds => {
            let fields = split_chars(s, ':');
            let m = field_value(&fields, 0);
            let sec = field_value(&fields, 1);
            m * 60 + sec
        },
        WTimeFormat::HoursMinutes => {
            let trimmed = trim_matches_char(s, 'm');
            let fields = split_chars(trimmed.as_slice(), ':');
            let h = field_value(&fields, 0);
            let m = field_value(&fields, 1);
            h * 3600 + m * 60
        },
    }
}

/// The three compiled patterns, or the error of the first that failed.
fn compile_patterns() -> (r: Result<(Pattern, Pattern, Pattern), CircadianError>)
    ensures
        r is Ok <==> patterns_compile(),
        r matches Err(e) ==> e.0@ == patterns_error(),
        r matches Ok((a, b, c)) ==> a@ == seconds_pattern() && b@ == minutes_pattern() && c@
            == hours_pattern(),
{
    let sec = match compile("^\\d+.\\d+s$") {
        Ok(p) => p,
        Err(t) => return Err(pattern_error(t)),
    };
    let min = match compile("^\\d+:\\d+$") {
        Ok(p) => p,
        Err(t) => return Err(pattern_error(t)),
    };
    let hour = match compile("^\\d+:\\d+m$") {
        Ok(p) => p,
        Err(t) => return Err(pattern_error(t)),
    };
    Ok((sec, min, hour))
}

/// The first form whose pattern matches `s`.
fn classify(s: &str, sec: &Pattern, min: &Pattern, hour: &Pattern) -> (f: Option<WTimeFormat>)
    requires
        sec@ == seconds_pattern(),
        min@ == minutes_pattern(),
        hour@ == hours_pattern(),
    ensures
        f == w_time_format(s@),
{
    if is_match(sec, s) {
        Some(WTimeFormat::Seconds)
    } else if is_match(min, s) {
        Some(WTimeFormat::MinutesSeconds)
    } else if is_match(hour, s) {
        Some(WTimeFormat::HoursMinutes)
    } else {
        None
    }
}

/// Parse an idle time as `w` prints it into seconds.
pub fn parse_w_time(time_str: &str) -> (r: Result<u32, CircadianError>)
    requires
        w_time_in_range(time_str@),
    ensures
        w_time_outcome(time_str@, r),
{
    let (sec, min, hour) = match compile_patterns() {
        Ok(p) => p,
        Err(e) => return Err(e),
    };
    match classify(time_str, &sec, &min, &hour) {
        Some(f) => {
            let chars = chars_of(time_str);
            let t = w_time_total_exec(chars.as_slice(), f);
            Ok(t as u32)
        },
        None => Err(CircadianError::from_message("Invalid idle format")),
    }
}

/// `parse_w_time(time_str)` where its arithmetic stays within `u32`, and
/// `None` where it would overflow.
pub fn parse_w_time_checked(time_str: &str) -> (r: Option<Result<u32, CircadianError>>)
    ensures
        r is None <==> !w_time_in_range(time_str@),
        r matches Some(x) ==> w_time_outcome(time_str@, x),
{
    match compile_patterns() {
        Ok((sec, min, hour)) => {
            match classify(time_str, &sec, &min, &hour) {
                Some(f) => {
                    let chars = chars_of(time_str);
                    let t = w_time_total_exec(chars.as_slice(), f);
                    if t > 4294967295u64 {
                        return None;
                    }
                },
                None => {},
            }
        },
        Err(_) => {},
    }
    Some(parse_w_time(time_str))
}


/// The lines of the text that `bytes` encode (none where they are not UTF-8).
pub open spec fn output_lines(bytes: Seq<u8>) -> Seq<Seq<char>> {
    split_on(utf8_or_empty(bytes), '\n')
}

/// Whether every non-empty line reads within `u32`.
pub open spec fn w_lines_in_range(lines: Seq<Seq<char>>) -> bool {
    forall|i: int|
        0 <= i < lines.len() && lines[i].len() > 0 ==> #[trigger] w_time_in_range(lines[i])
}

/// The least idle time over the non-empty lines that read as one, or
/// `u32::MAX` where there is none.
pub open spec fn min_w_idle(lines: Seq<Seq<char>>) -> nat
    decreases lines.len(),
{
    if lines.len() == 0 {
        u32::MAX as nat
    } else {
        let m = min_w_idle(lines.drop_last());
        let l = lines.last();
        if l.len() > 0 {
            match w_time_seconds(l) {
                Some(v) => if v < m {
                    v
                } else {
                    m
                },
                None => m,
            }
        } else {
            m
        }
    }
}

/// The least idle time in the output of `w -hus | awk '{print $4}'`, as
/// the `w` check reports it; `None` where reading a line would overflow.
pub fn idle_from_w_output(stdout: Vec<u8>) -> (r: Option<u32>)
    ensures
        r is None <==> !w_lines_in_range(output_lines(stdout@)),
        r matches Some(v) ==> v == min_w_idle(output_lines(stdout@)),
{
    let ghost lines = output_lines(stdout@);
    let text = chars_of_utf8_or_empty(stdout);
    let fields = split_chars(text.as_slice(), '\n');
    assert(views(fields@) == lines);
    let mut acc: u32 = 4294967295u32;
    let mut i: usize = 0;
    while i < fields.len()
        invariant
            i <= fields@.len(),
            views(fields@) == lines,
            lines == output_lines(stdout@),
            w_lines_in_range(lines.take(i as int)),
            acc == min_w_idle(lines.take(i as int)),
        decreases fields@.len() - i,
    {
        let ghost l = lines[i as int];
        assert(fields@[i as int]@ == l);
        assert(lines.take(i + 1).drop_last() == lines.take(i as int));
        assert(lines.take(i + 1).last() == l);
        if fields[i].len() > 0 {
            let line = string_of(fields[i].as_slice());
            match parse_w_time_checked(line.as_str()) {
                None => {
                    assert(!w_time_in_range(lines[i as int]));
                    return None;
                },
                Some(Ok(v)) => {
                    if v < acc {
                        acc = v;
                    }
                },
                Some(Err(_)) => {},
            }
        }
        i = i + 1;
        assert forall|j: int|
            0 <= j < lines.take(i as int).len() && lines.take(i as int)[j].len() > 0 implies #[trigger] w_time_in_range(lines.take(i as int)[j]) by {
            if j < i - 1 {
                assert(lines.take(i as int)[j] == lines.take(i - 1)[j]);
            }
        }
    }
    assert(lines.take(i as int) == lines);
    Some(acc)
}


/// A numeral holds no character other than digits.
proof fn lemma_decimal_lacks(n: nat, c: char)
    requires
        !crate::number::is_digit(c),
    ensures
        !decimal(n).contains(c),
        decimal(n).len() >= 1,
        decimal(n)[0] != c,
        decimal(n).last() != c,
{
    lemma_decimal_shape(n);
    assert(decimal(n)[decimal(n).len() - 1] == decimal(n).last());
}

/// Trimming `c` off a text that ends with one `c` after a character other
/// than `c` drops that last character.
proof fn lemma_trim_char_last(s: Seq<char>, c: char)
    requires
        s.len() >= 2,
        s[0] != c,
        s.last() == c,
        s.drop_last().last() != c,
    ensures
        trim_char(s, c) == s.drop_last(),
{
    let p = crate::text::equal_to(c);
    assert(crate::text::drop_leading(s, p) == s);
    assert(crate::text::drop_trailing(s.drop_last(), p) == s.drop_last());
}

/// Reading "M:S" with the numerals of `m` and `s` gives `60 * m + s`
/// seconds.
pub proof fn lemma_w_time_minutes_seconds(m: nat, s: nat)
    requires
        m <= u32::MAX,
        s <= u32::MAX,
    ensures
        w_time_total(decimal(m) + seq![':'] + decimal(s), WTimeFormat::MinutesSeconds) == 60 * m
            + s,
{
    lemma_decimal_lacks(m, ':');
    lemma_decimal_lacks(s, ':');
    lemma_split_on_pair(decimal(m), decimal(s), ':');
    lemma_parse_decimal_roundtrip(m, u32::MAX as nat);
    lemma_parse_decimal_roundtrip(s, u32::MAX as nat);
}

/// Reading "H:Mm" with the numerals of `h` and `m` gives
/// `3600 * h + 60 * m` seconds.
pub proof fn lemma_w_time_hours_minutes(h: nat, m: nat)
    requires
        h <= u32::MAX,
        m <= u32::MAX,
    ensures
        w_time_total(decimal(h) + seq![':'] + decimal(m) + seq!['m'], WTimeFormat::HoursMinutes)
            == 3600 * h + 60 * m,
{
    lemma_decimal_lacks(h, ':');
    lemma_decimal_lacks(m, ':');
    lemma_decimal_lacks(h, 'm');
    lemma_decimal_lacks(m, 'm');
    let core = decimal(h) + seq![':'] + decimal(m);
    let t = core + seq!['m'];
    assert(t.drop_last() == core);
    assert(t[0] == decimal(h)[0]);
    assert(core.last() == decimal(m).last());
    lemma_trim_char_last(t, 'm');
    lemma_split_on_pair(decimal(h), decimal(m), ':');
    lemma_parse_decimal_roundtrip(h, u32::MAX as nat);
    lemma_parse_decimal_roundtrip(m, u32::MAX as nat);
}

/// Reading "S.Fs" with the numerals of `s` and `f` gives `s` seconds: the
/// fraction is dropped.
pub proof fn lemma_w_time_seconds(s: nat, f: nat)
    requires
        s <= u32::MAX,
    ensures
        w_time_total(decimal(s) + seq!['.'] + decimal(f) + seq!['s'], WTimeFormat::Seconds) == s,
{
    lemma_decimal_lacks(s, '.');
    lemma_decimal_lacks(f, '.');
    lemma_decimal_lacks(s, 's');
    lemma_decimal_lacks(f, 's');
    let core = decimal(s) + seq!['.'] + decimal(f);
    let t = core + seq!['s'];
    assert(t.drop_last() == core);
    assert(t[0] == decimal(s)[0]);
    assert(core.last() == decimal(f).last());
    lemma_trim_char_last(t, 's');
    lemma_split_on_pair(decimal(s), decimal(f), '.');
    lemma_parse_decimal_roundtrip(s, u32::MAX as nat);
}

/// The idle time reported from `w` is no greater than that of any line
/// that reads as one, and is either one of them or `u32::MAX`.
pub proof fn lemma_min_w_idle_is_least(lines: Seq<Seq<char>>)
    ensures
        forall|i: int|
            0 <= i < lines.len() && lines[i].len() > 0 && (#[trigger] w_time_seconds(lines[i])) is Some
                ==> min_w_idle(lines) <= w_time_seconds(lines[i])->Some_0,
        min_w_idle(lines) == u32::MAX || exists|i: int|
            0 <= i < lines.len() && lines[i].len() > 0 && #[trigger] w_time_seconds(lines[i])
                == Some(min_w_idle(lines)),
    decreases lines.len(),
{
    if lines.len() > 0 {
        let init = lines.drop_last();
        lemma_min_w_idle_is_least(init);
        assert forall|i: int|
            0 <= i < lines.len() && lines[i].len() > 0 && (#[trigger] w_time_seconds(lines[i])) is Some
                implies min_w_idle(lines) <= w_time_seconds(lines[i])->Some_0 by {
            if i < lines.len() - 1 {
                assert(lines[i] == init[i]);
            }
        }
        if min_w_idle(lines) != u32::MAX {
            if min_w_idle(lines) == min_w_idle(init) {
                let i = choose|i: int|
                    0 <= i < init.len() && init[i].len() > 0 && #[trigger] w_time_seconds(init[i])
                        == Some(min_w_idle(init));
                assert(lines[i] == init[i]);
            } else {
                assert(w_time_seconds(lines[lines.len() - 1]) == Some(min_w_idle(lines)));
            }
        }
    }
}

} // verus!
