//! What keeps the machine from counting as idle: CPU load, network
//! sessions, sound, and named processes.

use vstd::prelude::*;
use crate::config::CircadianConfig;
use crate::error::CircadianError;
use crate::number::{parse_unsigned, parse_unsigned_chars, IntErrorKind};
use crate::report::{
    bool_chars, bool_text, flag_result_chars, flag_result_text, marked, marked_label, push_line,
    report_line,
};
use crate::text::{
    chars_equal, chars_of, chars_of_utf8_or_empty, copy_range, split_chars, split_on, string_from_utf8,
    string_of, utf8_error_description, utf8_or_empty, views,
};

verus! {

/// What a yes-or-no probe gives: the answer, or why it failed.
pub type ExistResult = Result<bool, CircadianError>;

/// What the CPU load probe gives: whether the load passes the comparison
/// with the limit (below it, for the limit on CPU load).
pub type ThreshResult = Result<bool, CircadianError>;

/// The averaging period of a CPU load figure.
#[derive(Clone, Copy, Debug, PartialEq, Eq, Structural)]
pub enum CpuHistory {
    Min1,
    Min5,
    Min15,
}

/// A kind of network session that blocks idleness.
#[derive(Clone, Copy, Debug, PartialEq, Eq, Structural)]
pub enum NetConnection {
    SSH,
    SMB,
}

/// The position of `history` among the three load averages of `uptime`.
pub open spec fn history_index(history: CpuHistory) -> int {
    match history {
        CpuHistory::Min1 => 0,
        CpuHistory::Min5 => 1,
        CpuHistory::Min15 => 2,
    }
}

/// Whether the load averaged over `history` passes the comparison:
/// `comparisons[i]` is the comparison of the `i`-th load average with the
/// threshold (with `lt`: whether it is below); a missing figure does not pass.
pub open spec fn load_compares(history: CpuHistory, comparisons: Seq<bool>) -> bool {
    let i = history_index(history);
    0 <= i < comparisons.len() && comparisons[i]
}

/// The one-minute figure is the first of `uptime`'s three, the five-minute
/// the second and the fifteen-minute the third; a figure that is missing
/// never passes.
pub proof fn lemma_load_compares(comparisons: Seq<bool>)
    ensures
        comparisons.len() >= 1 ==> load_compares(CpuHistory::Min1, comparisons) == comparisons[0],
        comparisons.len() >= 2 ==> load_compares(CpuHistory::Min5, comparisons) == comparisons[1],
        comparisons.len() >= 3 ==> load_compares(CpuHistory::Min15, comparisons) == comparisons[2],
        comparisons.len() == 0 ==> !load_compares(CpuHistory::Min1, comparisons),
        comparisons.len() <= 1 ==> !load_compares(CpuHistory::Min5, comparisons),
        comparisons.len() <= 2 ==> !load_compares(CpuHistory::Min15, comparisons),
{
}

/// Whether the load averaged over `history` passes the comparison with the
/// threshold; with `lt`, whether it is below the threshold.
pub fn cpu_below_threshold(history: CpuHistory, comparisons: &Vec<bool>) -> (r: bool)
    ensures
        r == load_compares(history, comparisons@),
{
    let idx: usize = match history {
        CpuHistory::Min1 => 0,
        CpuHistory::Min5 => 1,
        CpuHistory::Min15 => 2,
    };
    if idx < comparisons.len() {
        comparisons[idx]
    } else {
        false
    }
}

/// `s` with each comma turned into a full stop.
pub open spec fn commas_to_points(s: Seq<char>) -> Seq<char> {
    s.map_values(|c: char| if c == ',' { '.' } else { c })
}

/// The load figures among `cols`, the last columns of `uptime`: the
/// non-empty ones, each without its last character and with a decimal
/// comma read as a point.
pub open spec fn load_figures(cols: Seq<Seq<char>>) -> Seq<Seq<char>>
    decreases cols.len(),
{
    if cols.len() == 0 {
        Seq::<Seq<char>>::empty()
    } else {
        let init = load_figures(cols.drop_last());
        if cols.last().len() > 0 {
            init.push(commas_to_points(cols.last().drop_last()))
        } else {
            init
        }
    }
}

proof fn lemma_commas_drop_last(x: Seq<char>)
    requires
        x.len() > 0,
    ensures
        commas_to_points(x.drop_last()) == commas_to_points(x).drop_last(),
{
    assert(commas_to_points(x.drop_last()) =~= commas_to_points(x).drop_last());
}

/// The load figures do not depend on whether the columns write a decimal
/// comma or a decimal point: columns that read alike once commas are turned
/// into points give the same figures.
pub proof fn lemma_decimal_mark_irrelevant(a: Seq<Seq<char>>, b: Seq<Seq<char>>)
    requires
        a.len() == b.len(),
        forall|i: int| 0 <= i < a.len() ==> commas_to_points(#[trigger] a[i]) == commas_to_points(b[i]),
    ensures
        load_figures(a) == load_figures(b),
    decreases a.len(),
{
    if a.len() > 0 {
        let n = a.len() - 1;
        assert forall|i: int| 0 <= i < a.drop_last().len() implies commas_to_points(
            #[trigger] a.drop_last()[i],
        ) == commas_to_points(b.drop_last()[i]) by {
            assert(a.drop_last()[i] == a[i]);
            assert(b.drop_last()[i] == b[i]);
        }
        lemma_decimal_mark_irrelevant(a.drop_last(), b.drop_last());
        assert(commas_to_points(a[n]) == commas_to_points(b[n]));
        assert(commas_to_points(a[n]).len() == a[n].len());
        assert(commas_to_points(b[n]).len() == b[n].len());
        if a[n].len() > 0 {
            lemma_commas_drop_last(a[n]);
            lemma_commas_drop_last(b[n]);
        }
        assert(a.last() == a[n]);
        assert(b.last() == b[n]);
    }
}

/// The last (up to) three space-separated columns of the text of `bytes`.
pub open spec fn last_columns(bytes: Seq<u8>) -> Seq<Seq<char>> {
    let cols = split_on(utf8_or_empty(bytes), ' ');
    if cols.len() >= 3 {
        cols.skip(cols.len() - 3)
    } else {
        cols
    }
}

/// Whether each non-empty column of `cols` ends in a single-byte character
/// (it is cut there by byte position).
pub open spec fn columns_cuttable(cols: Seq<Seq<char>>) -> bool {
    forall|i: int| 0 <= i < cols.len() && cols[i].len() > 0 ==> (#[trigger] cols[i].last() as u32) < 128
}

/// The load average figures in the output of `uptime`, as text to be read
/// as numbers.
pub fn load_average_fields(stdout: Vec<u8>) -> (r: Vec<String>)
    requires
        columns_cuttable(last_columns(stdout@)),
    ensures
        crate::config::string_views(r@) == load_figures(last_columns(stdout@)),
{
    let ghost want_cols = last_columns(stdout@);
    let text = chars_of_utf8_or_empty(stdout);
    let cols = split_chars(text.as_slice(), ' ');
    let start: usize = if cols.len() >= 3 { cols.len() - 3 } else { 0 };
    assert(views(cols@).skip(start as int) == want_cols);
    let mut r: Vec<String> = Vec::new();
    let mut i: usize = start;
    while i < cols.len()
        invariant
            start <= i <= cols@.len(),
            views(cols@).skip(start as int) == want_cols,
            columns_cuttable(want_cols),
            crate::config::string_views(r@) == load_figures(want_cols.take(i - start)),
        decreases cols@.len() - i,
    {
        let ghost k: int = i - start;
        assert(want_cols[k] == cols@[i as int]@);
        assert(want_cols.take(k + 1).drop_last() == want_cols.take(k));
        assert(want_cols.take(k + 1).last() == want_cols[k]);
        let n = cols[i].len();
        if n > 0 {
            let mut f = copy_range(cols[i].as_slice(), 0, n - 1);
            let ghost body = f@;
            let mut j: usize = 0;
            while j < f.len()
                invariant
                    j <= f@.len(),
                    f@.len() == body.len(),
                    forall|m: int| 0 <= m < j ==> f@[m] == commas_to_points(body)[m],
                    forall|m: int| j <= m < f@.len() ==> f@[m] == body[m],
                decreases f@.len() - j,
            {
                if f[j] == ',' {
                    f.set(j, '.');
                }
                j = j + 1;
            }
            assert(f@ =~= commas_to_points(body));
            let s = string_of(f.as_slice());
            let ghost before = r@;
            r.push(s);
            assert(crate::config::string_views(r@) =~= crate::config::string_views(before).push(s@));
        }
        i = i + 1;
    }
    assert(want_cols.take(i - start) == want_cols);
    r
}


/// Whether the load columns of `stdout` can be cut.
fn load_columns_cuttable(stdout: &Vec<u8>) -> (b: bool)
    ensures
        b == columns_cuttable(last_columns(stdout@)),
{
    let ghost want_cols = last_columns(stdout@);
    let text = chars_of_utf8_or_empty(stdout.clone());
    let cols = split_chars(text.as_slice(), ' ');
    let start: usize = if cols.len() >= 3 { cols.len() - 3 } else { 0 };
    assert(views(cols@).skip(start as int) == want_cols);
    let mut i: usize = start;
    while i < cols.len()
        invariant
            start <= i <= cols@.len(),
            views(cols@).skip(start as int) == want_cols,
            want_cols == last_columns(stdout@),
            columns_cuttable(want_cols.take(i - start)),
        decreases cols@.len() - i,
    {
        let ghost k: int = i - start;
        assert(want_cols[k] == cols@[i as int]@);
        let n = cols[i].len();
        if n > 0 && (cols[i][n - 1] as u32) >= 128 {
            assert(want_cols[k].len() > 0 && (want_cols[k].last() as u32) >= 128);
            return false;
        }
        i = i + 1;
        assert forall|m: int|
            0 <= m < want_cols.take(i - start).len() && want_cols.take(i - start)[m].len() > 0 implies (
            #[trigger] want_cols.take(i - start)[m].last() as u32) < 128 by {
            if m < k {
                assert(want_cols.take(i - start)[m] == want_cols.take(k)[m]);
            }
        }
    }
    assert(want_cols.take(i - start) == want_cols);
    true
}

/// `load_average_fields(stdout)` where the columns can be cut, and `None`
/// where cutting the last character off a column would split a character.
pub fn load_average_fields_checked(stdout: Vec<u8>) -> (r: Option<Vec<String>>)
    ensures
        r is None <==> !columns_cuttable(last_columns(stdout@)),
        r matches Some(v) ==> crate::config::string_views(v@) == load_figures(last_columns(stdout@)),
{
    if load_columns_cuttable(&stdout) {
        Some(load_average_fields(stdout))
    } else {
        None
    }
}

/// The message of a failed integer parse, as its `description` gives it.
pub open spec fn int_error_message(k: IntErrorKind) -> Seq<char> {
    match k {
        IntErrorKind::Empty => "cannot parse integer from empty string"@,
        IntErrorKind::InvalidDigit => "invalid digit found in string"@,
        IntErrorKind::PosOverflow => "number too large to fit in target type"@,
    }
}

/// The error for a failed integer parse.
pub fn int_error(k: IntErrorKind) -> (e: CircadianError)
    ensures
        e.0@ == int_error_message(k),
{
    match k {
        IntErrorKind::Empty => CircadianError::from_message("cannot parse integer from empty string"),
        IntErrorKind::InvalidDigit => CircadianError::from_message("invalid digit found in string"),
        IntErrorKind::PosOverflow => CircadianError::from_message("number too large to fit in target type"),
    }
}

/// What the count printed by `pgrep -c` says: whether any process matched,
/// or why the count could not be read. The last byte (the line end) is cut
/// off first; text that is not UTF-8 counts as empty.
pub open spec fn process_outcome(bytes: Seq<u8>, r: ExistResult) -> bool {
    match parse_unsigned(utf8_or_empty(bytes.drop_last()), u32::MAX as nat) {
        Ok(v) => r == Ok::<bool, CircadianError>(v > 0),
        Err(k) => r matches Err(e) && e.0@ == int_error_message(k),
    }
}

/// Where the count printed by `pgrep -c` reads as `n`, the answer is that
/// a process runs exactly when `n` is at least one; where it does not read
/// as a number, the answer is an error.
pub proof fn lemma_process_count(bytes: Seq<u8>, r: ExistResult, n: nat)
    requires
        process_outcome(bytes, r),
    ensures
        parse_unsigned(utf8_or_empty(bytes.drop_last()), u32::MAX as nat) == Ok::<nat, IntErrorKind>(n)
            ==> (r == Ok::<bool, CircadianError>(true) <==> n >= 1) && (r == Ok::<bool, CircadianError>(false) <==> n == 0),
        parse_unsigned(utf8_or_empty(bytes.drop_last()), u32::MAX as nat) is Err ==> r is Err,
{
}

/// Whether a process matched, from the output of `pgrep -c`.
pub fn process_exists(stdout: Vec<u8>) -> (r: ExistResult)
    requires
        stdout@.len() >= 1,
    ensures
        process_outcome(stdout@, r),
{
    let n = stdout.len();
    let mut body: Vec<u8> = Vec::new();
    let mut i: usize = 0;
    while i < n - 1
        invariant
            i <= n - 1,
            n == stdout@.len(),
            n >= 1,
            body@ == stdout@.take(i as int),
        decreases n - 1 - i,
    {
        body.push(stdout[i]);
        i = i + 1;
        assert(body@ == stdout@.take(i as int));
    }
    assert(body@ == stdout@.drop_last());
    let text = chars_of_utf8_or_empty(body);
    match parse_unsigned_chars(text.as_slice(), 4294967295u64) {
        Ok(count) => Ok(count > 0),
        Err(k) => Err(int_error(k)),
    }
}

/// `process_exists(stdout)` on output that is not empty, and `None` on
/// empty output (where cutting off the line end would underflow).
pub fn process_exists_checked(stdout: Vec<u8>) -> (r: Option<ExistResult>)
    ensures
        r is None <==> stdout@.len() == 0,
        r matches Some(x) ==> process_outcome(stdout@, x),
{
    if stdout.len() == 0 {
        None
    } else {
        Some(process_exists(stdout))
    }
}

/// The extended regular expression that `grep` looks for in `netstat -tnpa`
/// to find a session of the kind `conn`.
pub open spec fn connection_pattern(conn: NetConnection) -> Seq<char> {
    match conn {
        NetConnection::SSH => "[0-9]+/ssh[d]*"@,
        NetConnection::SMB => "[0-9]+/smb[d]*"@,
    }
}

/// The pattern for sessions of the kind `conn`.
pub fn net_connection_pattern(conn: NetConnection) -> (p: String)
    ensures
        p@ == connection_pattern(conn),
{
    match conn {
        NetConnection::SSH => "[0-9]+/ssh[d]*".to_owned(),
        NetConnection::SMB => "[0-9]+/smb[d]*".to_owned(),
    }
}

/// Whether some line of `lines` is not empty.
pub open spec fn has_nonempty(lines: Seq<Seq<char>>) -> bool {
    exists|i: int| 0 <= i < lines.len() && #[trigger] lines[i].len() > 0
}

/// The number of non-empty lines.
pub open spec fn nonempty_count(lines: Seq<Seq<char>>) -> nat
    decreases lines.len(),
{
    if lines.len() == 0 {
        0
    } else {
        nonempty_count(lines.drop_last()) + if lines.last().len() > 0 {
            1nat
        } else {
            0nat
        }
    }
}

/// Counts the non-empty lines of `text`.
fn count_nonempty_lines(text: &[char]) -> (n: usize)
    ensures
        n == nonempty_count(split_on(text@, '\n')),
{
    let lines = split_chars(text, '\n');
    let ghost ls = views(lines@);
    let mut n: usize = 0;
    let mut i: usize = 0;
    while i < lines.len()
        invariant
            i <= lines@.len(),
            n <= i,
            ls == views(lines@),
            ls == split_on(text@, '\n'),
            n == nonempty_count(ls.take(i as int)),
        decreases lines@.len() - i,
    {
        assert(ls.take(i + 1).drop_last() == ls.take(i as int));
        assert(ls[i as int] == lines@[i as int]@);
        if lines[i].len() > 0 {
            n = n + 1;
        }
        i = i + 1;
    }
    assert(ls.take(i as int) == ls);
    n
}

/// Some line is counted exactly when some line is not empty, and no more
/// lines are counted than there are.
pub proof fn lemma_nonempty_count(lines: Seq<Seq<char>>)
    ensures
        nonempty_count(lines) > 0 <==> exists|i: int| 0 <= i < lines.len() && lines[i].len() > 0,
        nonempty_count(lines) <= lines.len(),
    decreases lines.len(),
{
    if lines.len() > 0 {
        let init = lines.drop_last();
        lemma_nonempty_count(init);
        if exists|i: int| 0 <= i < init.len() && init[i].len() > 0 {
            let i = choose|i: int| 0 <= i < init.len() && init[i].len() > 0;
            assert(lines[i] == init[i]);
        }
        if exists|i: int| 0 <= i < lines.len() && lines[i].len() > 0 {
            let i = choose|i: int| 0 <= i < lines.len() && lines[i].len() > 0;
            if i < lines.len() - 1 {
                assert(lines[i] == init[i]);
            }
        }
        assert(lines[lines.len() - 1] == lines.last());
    }
}

/// Whether the output of the `grep` chain lists any session.
pub fn connection_listed(stdout: Vec<u8>) -> (r: bool)
    ensures
        r == (nonempty_count(split_on(utf8_or_empty(stdout@), '\n')) > 0),
{
    let text = chars_of_utf8_or_empty(stdout);
    count_nonempty_lines(text.as_slice()) > 0
}


/// Whether a line of a sound substream's status says that it plays.
pub open spec fn is_running_line(l: Seq<char>) -> bool {
    l == "state: RUNNING"@
}

/// The number of lines that say a substream plays.
pub open spec fn running_count(lines: Seq<Seq<char>>) -> nat
    decreases lines.len(),
{
    if lines.len() == 0 {
        0
    } else {
        running_count(lines.drop_last()) + if is_running_line(lines.last()) {
            1nat
        } else {
            0nat
        }
    }
}

/// Some substream is counted as playing exactly when some line reads
/// `state: RUNNING`, and no more lines are counted than there are.
pub proof fn lemma_running_count(lines: Seq<Seq<char>>)
    ensures
        running_count(lines) > 0 <==> exists|i: int| 0 <= i < lines.len() && lines[i] == "state: RUNNING"@,
        running_count(lines) <= lines.len(),
    decreases lines.len(),
{
    if lines.len() > 0 {
        let init = lines.drop_last();
        lemma_running_count(init);
        if exists|i: int| 0 <= i < init.len() && init[i] == "state: RUNNING"@ {
            let i = choose|i: int| 0 <= i < init.len() && init[i] == "state: RUNNING"@;
            assert(lines[i] == init[i]);
        }
        if exists|i: int| 0 <= i < lines.len() && lines[i] == "state: RUNNING"@ {
            let i = choose|i: int| 0 <= i < lines.len() && lines[i] == "state: RUNNING"@;
            if i < lines.len() - 1 {
                assert(lines[i] == init[i]);
            }
        }
        assert(lines[lines.len() - 1] == lines.last());
    }
}

/// Counts the lines of `text` that say a substream plays.
fn count_running_lines(text: &[char]) -> (n: usize)
    ensures
        n == running_count(split_on(text@, '\n')),
{
    let lines = split_chars(text, '\n');
    let running = chars_of("state: RUNNING");
    let ghost ls = views(lines@);
    let mut n: usize = 0;
    let mut i: usize = 0;
    while i < lines.len()
        invariant
            i <= lines@.len(),
            n <= i,
            running@ == "state: RUNNING"@,
            ls == views(lines@),
            ls == split_on(text@, '\n'),
            n == running_count(ls.take(i as int)),
        decreases lines@.len() - i,
    {
        assert(ls.take(i + 1).drop_last() == ls.take(i as int));
        assert(ls[i as int] == lines@[i as int]@);
        if chars_equal(lines[i].as_slice(), running.as_slice()) {
            n = n + 1;
        }
        i = i + 1;
    }
    assert(ls.take(i as int) == ls);
    n
}

/// The number of substreams of one sound device that play, from its
/// `state:` line (as `grep state:` picks it from the status file): the
/// lines that read `state: RUNNING`; an error where the output is not UTF-8.
pub fn audio_state_lines(stdout: Vec<u8>) -> (r: Result<usize, CircadianError>)
    ensures
        vstd::utf8::valid_utf8(stdout@) <==> r is Ok,
        r matches Ok(n) ==> n == running_count(split_on(vstd::utf8::decode_utf8(stdout@), '\n')),
        r matches Err(e) ==> e.0@ == utf8_error_description(stdout@),
{
    match string_from_utf8(stdout) {
        Ok(s) => {
            let text = chars_of(s.as_str());
            Ok(count_running_lines(text.as_slice()))
        },
        Err(t) => Err(CircadianError(t)),
    }
}

/// The sum of `v`.
pub open spec fn seq_sum(v: Seq<usize>) -> nat
    decreases v.len(),
{
    if v.len() == 0 {
        0
    } else {
        seq_sum(v.drop_last()) + v.last() as nat
    }
}

/// Whether sound plays: the playing substreams over all devices number
/// more than zero.
pub fn audio_active(counts: &Vec<usize>) -> (r: bool)
    ensures
        r == (seq_sum(counts@) > 0),
        r == exists|i: int| 0 <= i < counts@.len() && counts@[i] > 0,
{
    proof {
        lemma_seq_sum_positive(counts@);
    }
    let mut i: usize = 0;
    while i < counts.len()
        invariant
            i <= counts@.len(),
            seq_sum(counts@.take(i as int)) == 0,
        decreases counts@.len() - i,
    {
        assert(counts@.take(i + 1).drop_last() == counts@.take(i as int));
        if counts[i] > 0 {
            proof {
                lemma_seq_sum_prefix(counts@, i + 1);
            }
            return true;
        }
        i = i + 1;
    }
    assert(counts@.take(i as int) == counts@);
    false
}

proof fn lemma_seq_sum_prefix(v: Seq<usize>, k: int)
    requires
        0 <= k <= v.len(),
    ensures
        seq_sum(v.take(k)) <= seq_sum(v),
    decreases v.len() - k,
{
    if k < v.len() {
        lemma_seq_sum_prefix(v, k + 1);
        assert(v.take(k + 1).drop_last() == v.take(k));
    } else {
        assert(v.take(k) == v);
    }
}

/// A sum of counts is positive exactly when some count is.
pub proof fn lemma_seq_sum_positive(v: Seq<usize>)
    ensures
        seq_sum(v) > 0 <==> exists|i: int| 0 <= i < v.len() && v[i] > 0,
    decreases v.len(),
{
    if v.len() > 0 {
        let init = v.drop_last();
        lemma_seq_sum_positive(init);
        if exists|i: int| 0 <= i < init.len() && init[i] > 0 {
            let i = choose|i: int| 0 <= i < init.len() && init[i] > 0;
            assert(v[i] == init[i]);
        }
        if exists|i: int| 0 <= i < v.len() && v[i] > 0 {
            let i = choose|i: int| 0 <= i < v.len() && v[i] > 0;
            if i < v.len() - 1 {
                assert(v[i] == init[i]);
            } else {
                assert(v[i] == v.last());
            }
        }
        assert(v[v.len() - 1] == v.last());
    }
}

/// The outcome over the process checks: the first failure, or else
/// whether any named process runs.
pub open spec fn processes_outcome(results: Seq<ExistResult>) -> ExistResult
    decreases results.len(),
{
    if results.len() == 0 {
        Ok(false)
    } else {
        match processes_outcome(results.drop_last()) {
            Err(e) => Err(e),
            Ok(any) => match results.last() {
                Err(e) => Err(e),
                Ok(b) => Ok(any || b),
            },
        }
    }
}

/// Combines the checks of the named processes, in order.
pub fn combine_process_checks(results: &Vec<ExistResult>) -> (r: ExistResult)
    ensures
        r == processes_outcome(results@),
{
    let mut any = false;
    let mut i: usize = 0;
    while i < results.len()
        invariant
            i <= results@.len(),
            processes_outcome(results@.take(i as int)) == Ok::<bool, CircadianError>(any),
        decreases results@.len() - i,
    {
        assert(results@.take(i + 1).drop_last() == results@.take(i as int));
        match &results[i] {
            Err(e) => {
                proof {
                    lemma_processes_outcome_err(results@, i + 1, *e);
                }
                return Err(e.clone());
            },
            Ok(b) => {
                any = any || *b;
            },
        }
        i = i + 1;
    }
    assert(results@.take(i as int) == results@);
    Ok(any)
}

/// Once a prefix has failed, the whole list fails with the same error.
proof fn lemma_processes_outcome_err(v: Seq<ExistResult>, k: int, e: CircadianError)
    requires
        0 <= k <= v.len(),
        processes_outcome(v.take(k)) == Err::<bool, CircadianError>(e),
    ensures
        processes_outcome(v) == Err::<bool, CircadianError>(e),
    decreases v.len() - k,
{
    if k < v.len() {
        assert(v.take(k + 1).drop_last() == v.take(k));
        lemma_processes_outcome_err(v, k + 1, e);
    } else {
        assert(v.take(k) == v);
    }
}


/// The CPU load blocks idleness where it is not below the limit, or where
/// it could not be read.
pub open spec fn load_blocks(r: ThreshResult) -> bool {
    match r {
        Ok(below) => !below,
        Err(_) => true,
    }
}

/// A probe's answer, counting a failed probe as "yes": a check that cannot
/// run blocks idleness.
pub open spec fn yes_or_failed(r: ExistResult) -> bool {
    match r {
        Ok(b) => b,
        Err(_) => true,
    }
}

/// The result of the checks that block idleness.
pub struct NonIdleResponse {
    /// Whether the one-minute load average is below the limit.
    pub cpu_load: ThreshResult,
    pub cpu_load_enabled: bool,
    pub ssh: ExistResult,
    pub ssh_enabled: bool,
    pub smb: ExistResult,
    pub smb_enabled: bool,
    pub audio: ExistResult,
    pub audio_enabled: bool,
    pub procs: ExistResult,
    pub procs_enabled: bool,
    pub is_blocked: bool,
}

/// Whether the checks block idleness: the CPU load, where enabled, is not
/// below its limit or could not be read, or some other enabled check
/// answers "yes" or failed.
pub open spec fn blocked(r: NonIdleResponse) -> bool {
    ||| r.cpu_load_enabled && load_blocks(r.cpu_load)
    ||| r.ssh_enabled && yes_or_failed(r.ssh)
    ||| r.smb_enabled && yes_or_failed(r.smb)
    ||| r.audio_enabled && yes_or_failed(r.audio)
    ||| r.procs_enabled && yes_or_failed(r.procs)
}

/// Whether `r` is the response to `config` and these probe results.
pub open spec fn nonidle_response_of(r: NonIdleResponse, config: CircadianConfig, cpu_load_enabled: bool, cpu_load: ThreshResult, ssh: ExistResult, smb: ExistResult, audio: ExistResult, procs: ExistResult) -> bool {
    &&& r.cpu_load == cpu_load
    &&& r.cpu_load_enabled == cpu_load_enabled
    &&& r.ssh == ssh
    &&& r.ssh_enabled == config.ssh_block
    &&& r.smb == smb
    &&& r.smb_enabled == config.smb_block
    &&& r.audio == audio
    &&& r.audio_enabled == config.audio_block
    &&& r.procs == procs
    &&& r.procs_enabled == (config.process_block@.len() > 0)
    &&& r.is_blocked == blocked(r)
}

fn load_blocks_exec(r: &ThreshResult) -> (b: bool)
    ensures
        b == load_blocks(*r),
{
    match r {
        Ok(below) => !*below,
        Err(_) => true,
    }
}

fn yes_or_failed_exec(r: &ExistResult) -> (b: bool)
    ensures
        b == yes_or_failed(*r),
{
    match r {
        Ok(b) => *b,
        Err(_) => true,
    }
}

/// Combines the results of the blocking checks under `config`;
/// `cpu_load_enabled` says whether a CPU load limit below 999 is set.
pub fn test_nonidle(config: &CircadianConfig, cpu_load_enabled: bool, cpu_load: ThreshResult, ssh: ExistResult, smb: ExistResult, audio: ExistResult, procs: ExistResult) -> (r: NonIdleResponse)
    ensures
        nonidle_response_of(r, *config, cpu_load_enabled, cpu_load, ssh, smb, audio, procs),
{
    let procs_enabled = config.process_block.len() > 0;
    let is_blocked = (cpu_load_enabled && load_blocks_exec(&cpu_load)) || (config.ssh_block
        && yes_or_failed_exec(&ssh)) || (config.smb_block && yes_or_failed_exec(&smb)) || (
    config.audio_block && yes_or_failed_exec(&audio)) || (procs_enabled && yes_or_failed_exec(
        &procs,
    ));
    NonIdleResponse {
        cpu_load: cpu_load,
        cpu_load_enabled: cpu_load_enabled,
        ssh: ssh,
        ssh_enabled: config.ssh_block,
        smb: smb,
        smb_enabled: config.smb_block,
        audio: audio,
        audio_enabled: config.audio_block,
        procs: procs,
        procs_enabled: procs_enabled,
        is_blocked: is_blocked,
    }
}

/// An enabled check that fails blocks idleness, and with no check enabled
/// nothing blocks it.
pub proof fn lemma_blocking_fail_safe(r: NonIdleResponse)
    ensures
        (r.cpu_load_enabled && r.cpu_load is Err) ==> blocked(r),
        (r.ssh_enabled && r.ssh is Err) ==> blocked(r),
        (r.smb_enabled && r.smb is Err) ==> blocked(r),
        (r.audio_enabled && r.audio is Err) ==> blocked(r),
        (r.procs_enabled && r.procs is Err) ==> blocked(r),
        (!r.cpu_load_enabled && !r.ssh_enabled && !r.smb_enabled && !r.audio_enabled
            && !r.procs_enabled) ==> !blocked(r),
{
}

/// An enabled check that answers "yes" blocks idleness (for the CPU load:
/// a load not below the limit), and idleness is blocked only where some
/// enabled check answers so or fails.
pub proof fn lemma_blocking_checks(r: NonIdleResponse)
    ensures
        (r.cpu_load_enabled && r.cpu_load == Ok::<bool, CircadianError>(false)) ==> blocked(r),
        (r.ssh_enabled && r.ssh == Ok::<bool, CircadianError>(true)) ==> blocked(r),
        (r.smb_enabled && r.smb == Ok::<bool, CircadianError>(true)) ==> blocked(r),
        (r.audio_enabled && r.audio == Ok::<bool, CircadianError>(true)) ==> blocked(r),
        (r.procs_enabled && r.procs == Ok::<bool, CircadianError>(true)) ==> blocked(r),
        blocked(r) ==> (r.cpu_load_enabled && r.cpu_load != Ok::<bool, CircadianError>(true))
            || (r.ssh_enabled && r.ssh != Ok::<bool, CircadianError>(false)) || (r.smb_enabled
            && r.smb != Ok::<bool, CircadianError>(false)) || (r.audio_enabled && r.audio != Ok::<
            bool,
            CircadianError,
        >(false)) || (r.procs_enabled && r.procs != Ok::<bool, CircadianError>(false)),
{
}

/// The process checks succeed exactly when each of them does, and then
/// report whether any named process runs.
pub proof fn lemma_processes_outcome(results: Seq<ExistResult>)
    ensures
        processes_outcome(results) is Ok <==> forall|i: int|
            0 <= i < results.len() ==> (#[trigger] results[i]) is Ok,
        processes_outcome(results) matches Ok(b) ==> (b <==> exists|i: int|
            0 <= i < results.len() && #[trigger] results[i] == Ok::<bool, CircadianError>(true)),
    decreases results.len(),
{
    if results.len() > 0 {
        let init = results.drop_last();
        lemma_processes_outcome(init);
        assert forall|i: int| 0 <= i < init.len() implies init[i] == results[i] by {}
        if processes_outcome(results) == Ok::<bool, CircadianError>(true) {
            {
                if processes_outcome(init) == Ok::<bool, CircadianError>(true) {
                    let i = choose|i: int|
                        0 <= i < init.len() && #[trigger] init[i] == Ok::<bool, CircadianError>(true);
                    assert(results[i] == init[i]);
                } else {
                    assert(results[results.len() - 1] == Ok::<bool, CircadianError>(true));
                }
            }
        }
        if forall|i: int| 0 <= i < results.len() ==> (#[trigger] results[i]) is Ok {
            assert(results[results.len() - 1] is Ok);
            assert forall|i: int| 0 <= i < init.len() implies (#[trigger] init[i]) is Ok by {
                assert(results[i] is Ok);
            }
        }
    }
}

/// The summary of a response of the blocking checks.
pub open spec fn nonidle_summary(r: NonIdleResponse) -> Seq<char> {
    report_line(marked("CPU load"@, r.cpu_load_enabled), flag_result_text(r.cpu_load))
        + report_line(marked("SSH"@, r.ssh_enabled), flag_result_text(r.ssh)) + report_line(
        marked("SMB"@, r.smb_enabled),
        flag_result_text(r.smb),
    ) + report_line(marked("Audio"@, r.audio_enabled), flag_result_text(r.audio))
        + report_line(marked("Processes"@, r.procs_enabled), flag_result_text(r.procs))
        + report_line("BLOCKED?"@, bool_text(r.is_blocked))
}

impl NonIdleResponse {
    /// The summary that the daemon prints, as its `Display` shows it.
    pub fn summary(&self) -> (s: String)
        ensures
            s@ == nonidle_summary(*self),
    {
        let mut out: Vec<char> = Vec::new();
        let l = marked_label("CPU load", self.cpu_load_enabled);
        let v = flag_result_chars(&self.cpu_load);
        push_line(&mut out, l.as_slice(), v.as_slice());
        let l = marked_label("SSH", self.ssh_enabled);
        let v = flag_result_chars(&self.ssh);
        push_line(&mut out, l.as_slice(), v.as_slice());
        let l = marked_label("SMB", self.smb_enabled);
        let v = flag_result_chars(&self.smb);
        push_line(&mut out, l.as_slice(), v.as_slice());
        let l = marked_label("Audio", self.audio_enabled);
        let v = flag_result_chars(&self.audio);
        push_line(&mut out, l.as_slice(), v.as_slice());
        let l = marked_label("Processes", self.procs_enabled);
        let v = flag_result_chars(&self.procs);
        push_line(&mut out, l.as_slice(), v.as_slice());
        let l = chars_of("BLOCKED?");
        let v = bool_chars(self.is_blocked);
        push_line(&mut out, l.as_slice(), v.as_slice());
        assert(out@ =~= nonidle_summary(*self));
        string_of(out.as_slice())
    }
}

} // verus!
