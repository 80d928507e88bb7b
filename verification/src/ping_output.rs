//! Reading the output of the system `ping` command.
//!
//! The round-trip time is the text captured by the pattern
//! `time[=<]\s*(\d+(?:\.\d+)?)\s*ms` at its leftmost match, with `\s` the
//! Unicode whitespace and `\d` the Unicode decimal digits. It covers
//! `time=11ms`, `time<1ms` (Windows) and `time=8.432 ms` (Unix).

use vstd::prelude::*;
use crate::text::{first_non_empty, first_non_empty_line, is_ws, is_whitespace_char, opt_view};
use crate::unicode::{is_decimal_digit, is_decimal_digit_char};

verus! {

/// Index just past the whitespace that starts at `i`.
pub open spec fn ws_run_end(s: Seq<char>, i: int) -> int
    decreases s.len() - i,
{
    if 0 <= i < s.len() && is_ws(s[i]) {
        ws_run_end(s, i + 1)
    } else {
        i
    }
}

/// Index just past the decimal digits that start at `i`.
pub open spec fn digit_run_end(s: Seq<char>, i: int) -> int
    decreases s.len() - i,
{
    if 0 <= i < s.len() && is_decimal_digit(s[i]) {
        digit_run_end(s, i + 1)
    } else {
        i
    }
}

/// End of the number whose integer digits end at `d`: a `.` and further
/// digits belong to it when they follow.
pub open spec fn number_end(s: Seq<char>, d: int) -> int {
    if 0 <= d && d + 1 < s.len() && s[d] == '.' && is_decimal_digit(s[d + 1]) {
        digit_run_end(s, d + 1)
    } else {
        d
    }
}

/// Where the number of a match that starts at `p` begins.
pub open spec fn number_start(s: Seq<char>, p: int) -> int {
    ws_run_end(s, p + 5)
}

/// Where the number of a match that starts at `p` ends.
pub open spec fn number_stop(s: Seq<char>, p: int) -> int {
    number_end(s, digit_run_end(s, number_start(s, p)))
}

/// The pattern matches at `p`. Each repetition in it can only take all it
/// can: what follows a run of whitespace is a digit, and what follows the
/// number is whitespace or `m`, neither of which the run before it could
/// have given back. So the greedy reading decides the match.
pub open spec fn matches_at(s: Seq<char>, p: int) -> bool {
    &&& 0 <= p
    &&& p + 5 <= s.len()
    &&& s[p] == 't' && s[p + 1] == 'i' && s[p + 2] == 'm' && s[p + 3] == 'e'
    &&& (s[p + 4] == '=' || s[p + 4] == '<')
    &&& digit_run_end(s, number_start(s, p)) > number_start(s, p)
    &&& {
        let m = ws_run_end(s, number_stop(s, p));
        m + 2 <= s.len() && s[m] == 'm' && s[m + 1] == 's'
    }
}

/// The captured number of the match at `p`.
pub open spec fn captured_at(s: Seq<char>, p: int) -> Seq<char> {
    s.subrange(number_start(s, p), number_stop(s, p))
}

/// `p` is the leftmost position where the pattern matches.
pub open spec fn leftmost_match(s: Seq<char>, p: int) -> bool {
    matches_at(s, p) && forall|q: int| 0 <= q < p ==> !matches_at(s, q)
}

/// `found` is what the pattern captures in `s`: the number of its leftmost
/// match, or nothing when it matches nowhere.
pub open spec fn latency_capture(s: Seq<char>, found: Option<Seq<char>>) -> bool {
    match found {
        Some(t) => exists|p: int| #[trigger] leftmost_match(s, p) && t == captured_at(s, p),
        None => forall|p: int| !matches_at(s, p),
    }
}

/// Executable form of [`ws_run_end`].
fn ws_end(v: &Vec<char>, i: usize) -> (r: usize)
    requires
        i <= v.len(),
    ensures
        r as int == ws_run_end(v@, i as int),
        i <= r <= v.len(),
{
    let mut j = i;
    while j < v.len() && is_whitespace_char(v[j])
        invariant
            i <= j <= v.len(),
            ws_run_end(v@, i as int) == ws_run_end(v@, j as int),
        decreases v.len() - j,
    {
        j = j + 1;
    }
    j
}

/// Executable form of [`digit_run_end`].
fn digit_end(v: &Vec<char>, i: usize) -> (r: usize)
    requires
        i <= v.len(),
    ensures
        r as int == digit_run_end(v@, i as int),
        i <= r <= v.len(),
{
    let mut j = i;
    while j < v.len() && is_decimal_digit_char(v[j])
        invariant
            i <= j <= v.len(),
            digit_run_end(v@, i as int) == digit_run_end(v@, j as int),
        decreases v.len() - j,
    {
        j = j + 1;
    }
    j
}

/// The bounds of the number captured at `p` when the pattern matches there.
fn match_at(v: &Vec<char>, p: usize) -> (r: Option<(usize, usize)>)
    requires
        p <= v.len(),
    ensures
        r is Some <==> matches_at(v@, p as int),
        r matches Some(b) ==> b.0 as int == number_start(v@, p as int) && b.1 as int
            == number_stop(v@, p as int) && b.0 <= b.1 <= v.len(),
{
    let n = v.len();
    if n - p < 5 {
        return None;
    }
    if !(v[p] == 't' && v[p + 1] == 'i' && v[p + 2] == 'm' && v[p + 3] == 'e' && (v[p + 4] == '='
        || v[p + 4] == '<')) {
        return None;
    }
    let a = ws_end(v, p + 5);
    let d = digit_end(v, a);
    if d == a {
        return None;
    }
    let e = if d < n && n - d > 1 && v[d] == '.' && is_decimal_digit_char(v[d + 1]) {
        digit_end(v, d + 1)
    } else {
        d
    };
    let m = ws_end(v, e);
    if n - m >= 2 && v[m] == 'm' && v[m + 1] == 's' {
        Some((a, e))
    } else {
        None
    }
}

/// The round-trip time as written in `ping` output (such as `11` or
/// `8.432`): the number captured at the leftmost match of the pattern, or
/// `None` when the output holds no match.
pub fn latency_text(output: &str) -> (r: Option<String>)
    ensures
        latency_capture(output@, opt_view(r)),
{
    let v = crate::text::chars_of(output);
    let n = v.len();
    let mut p: usize = 0;
    while p < n
        invariant
            v@ == output@,
            n == v.len(),
            p <= n,
            forall|q: int| 0 <= q < p ==> !matches_at(v@, q),
        decreases n - p,
    {
        match match_at(&v, p) {
            Some((a, e)) => {
                let t = output.substring_char(a, e).to_owned();
                assert(leftmost_match(output@, p as int));
                return Some(t);
            },
            None => {},
        }
        p = p + 1;
    }
    None
}

/// All of `s` is ASCII digits.
pub open spec fn all_ascii_digits(s: Seq<char>) -> bool {
    forall|i: int| 0 <= i < s.len() ==> '0' <= #[trigger] s[i] && s[i] <= '9'
}

proof fn lemma_digit_run_over(s: Seq<char>, i: int, n: int)
    requires
        0 <= i <= n <= s.len(),
        forall|k: int| i <= k < n ==> '0' <= #[trigger] s[k] && s[k] <= '9',
        n < s.len() ==> !is_decimal_digit(s[n]),
    ensures
        digit_run_end(s, i) == n,
    decreases n - i,
{
    if i < n {
        crate::unicode::lemma_ascii_digits(s[i]);
        lemma_digit_run_over(s, i + 1, n);
    }
}

proof fn lemma_ws_run_over(s: Seq<char>, i: int, n: int)
    requires
        0 <= i <= n <= s.len(),
        forall|k: int| i <= k < n ==> is_ws(#[trigger] s[k]),
        n < s.len() ==> !is_ws(s[n]),
    ensures
        ws_run_end(s, i) == n,
    decreases n - i,
{
    if i < n {
        lemma_ws_run_over(s, i + 1, n);
    }
}

/// A round-trip time written as `time=` or `time<`, then ASCII digits,
/// optionally a `.` and more ASCII digits, then any whitespace and `ms`,
/// is read back exactly: the text captured is the number as written,
/// whatever follows it. (`time=10ms`, `time<1ms`, `time=0.045 ms`,
/// `time=10.2 ms TTL=57`.)
pub proof fn lemma_latency_reads_number(
    sep: char,
    int_digits: Seq<char>,
    frac_digits: Seq<char>,
    gap: Seq<char>,
    rest: Seq<char>,
)
    requires
        sep == '=' || sep == '<',
        int_digits.len() > 0,
        all_ascii_digits(int_digits),
        all_ascii_digits(frac_digits),
        crate::text::all_ws(gap),
    ensures
        ({
            let number = if frac_digits.len() > 0 {
                int_digits + seq!['.'] + frac_digits
            } else {
                int_digits
            };
            let s = seq!['t', 'i', 'm', 'e', sep] + number + gap + seq!['m', 's'] + rest;
            latency_capture(s, Some(number))
        }),
{
    let number = if frac_digits.len() > 0 {
        int_digits + seq!['.'] + frac_digits
    } else {
        int_digits
    };
    let s = seq!['t', 'i', 'm', 'e', sep] + number + gap + seq!['m', 's'] + rest;
    let a = 5int;
    let d = a + int_digits.len();
    let e = a + number.len();
    let m = e + gap.len();
    assert(s.len() == m + 2 + rest.len());
    assert forall|k: int| a <= k < d implies '0' <= #[trigger] s[k] && s[k] <= '9' by {
        assert(s[k] == int_digits[k - a]);
    }
    crate::unicode::lemma_ascii_digits(s[a]);
    assert(s[a] == int_digits[0]);
    assert(!is_ws(s[a]));
    lemma_ws_run_over(s, a, a);
    if frac_digits.len() > 0 {
        assert(s[d] == '.');
        crate::unicode::lemma_ascii_digits(s[d]);
        assert(s[d + 1] == frac_digits[0]);
        crate::unicode::lemma_ascii_digits(s[d + 1]);
        lemma_digit_run_over(s, a, d);
        assert forall|k: int| d + 1 <= k < e implies '0' <= #[trigger] s[k] && s[k] <= '9' by {
            assert(s[k] == frac_digits[k - d - 1]);
        }
        if e < s.len() {
            crate::unicode::lemma_ascii_digits(s[e]);
            if gap.len() > 0 {
                assert(s[e] == gap[0]);
            } else {
                assert(s[e] == 'm');
            }
        }
        lemma_digit_run_over(s, d + 1, e);
    } else {
        if d < s.len() {
            crate::unicode::lemma_ascii_digits(s[d]);
            if gap.len() > 0 {
                assert(s[d] == gap[0]);
            } else {
                assert(s[d] == 'm');
            }
        }
        lemma_digit_run_over(s, a, d);
    }
    assert forall|k: int| e <= k < m implies is_ws(#[trigger] s[k]) by {
        assert(s[k] == gap[k - e]);
    }
    assert(s[m] == 'm');
    lemma_ws_run_over(s, e, m);
    assert(matches_at(s, 0));
    assert(captured_at(s, 0) =~= number);
    assert(leftmost_match(s, 0));
}

/// The arguments given to the system `ping` command to send one echo
/// request to `target`: on Windows `-n 1 -w 1500` (one request, 1500 ms
/// timeout), elsewhere `-c 1 -W 2` (one request, 2 s wait).
pub open spec fn ping_arguments(for_windows: bool, target: Seq<char>) -> Seq<Seq<char>> {
    if for_windows {
        seq!["-n"@, "1"@, "-w"@, "1500"@, target]
    } else {
        seq!["-c"@, "1"@, "-W"@, "2"@, target]
    }
}

/// `ping` is always asked for exactly one echo request, with the same
/// options whatever the target is, and the target is always the last
/// argument: `-c 1 -W 2` on Unix, `-n 1 -w 1500` on Windows.
pub proof fn lemma_one_request_per_ping(for_windows: bool, target: Seq<char>, other: Seq<char>)
    ensures
        ping_arguments(for_windows, target).len() == 5,
        ping_arguments(for_windows, target)[1] == "1"@,
        ping_arguments(for_windows, target)[4] == target,
        ping_arguments(for_windows, target).take(4) == ping_arguments(for_windows, other).take(4),
        !for_windows ==> ping_arguments(for_windows, target) == seq![
            "-c"@,
            "1"@,
            "-W"@,
            "2"@,
            target,
        ],
        for_windows ==> ping_arguments(for_windows, target) == seq![
            "-n"@,
            "1"@,
            "-w"@,
            "1500"@,
            target,
        ],
{
    assert(ping_arguments(for_windows, target).take(4) =~= ping_arguments(for_windows, other).take(4));
}

/// Builds the arguments of one `ping` of `target`.
pub fn ping_args(for_windows: bool, target: &str) -> (r: Vec<String>)
    ensures
        r@.map_values(|a: String| a@) == ping_arguments(for_windows, target@),
{
    let r = if for_windows {
        vec![
            String::from_str("-n"),
            String::from_str("1"),
            String::from_str("-w"),
            String::from_str("1500"),
            String::from_str(target),
        ]
    } else {
        vec![
            String::from_str("-c"),
            String::from_str("1"),
            String::from_str("-W"),
            String::from_str("2"),
            String::from_str(target),
        ]
    };
    assert(r@.map_values(|a: String| a@) =~= ping_arguments(for_windows, target@));
    r
}

/// What one run of `ping` says about the target.
pub enum PingOutcome {
    /// `ping` succeeded and reported this round-trip time, as written.
    Latency(String),
    /// `ping` succeeded but its output holds no round-trip time.
    LatencyMissing,
    /// `ping` failed, with this message.
    Failed(String),
}

/// Message of a failed ping that wrote nothing.
pub open spec fn msg_ping_failed() -> Seq<char> {
    "Ping failed"@
}

/// The message kept for a failed `ping`: the first line of its error output
/// that is not blank, else the first such line of its standard output,
/// else a fixed text.
pub open spec fn failure_message(stdout: Seq<char>, stderr: Seq<char>) -> Seq<char> {
    match first_non_empty_line(stderr) {
        Some(m) => m,
        None => match first_non_empty_line(stdout) {
            Some(m) => m,
            None => msg_ping_failed(),
        },
    }
}

/// Reads one run of `ping`: whether it exited with success, and what it
/// wrote to standard output and to standard error.
pub fn interpret_ping_output(succeeded: bool, stdout: &str, stderr: &str) -> (r: PingOutcome)
    ensures
        match r {
            PingOutcome::Latency(t) => succeeded && latency_capture(stdout@, Some(t@)),
            PingOutcome::LatencyMissing => succeeded && latency_capture(stdout@, None),
            PingOutcome::Failed(m) => !succeeded && m@ == failure_message(stdout@, stderr@),
        },
{
    if succeeded {
        match latency_text(stdout) {
            Some(t) => PingOutcome::Latency(t),
            None => PingOutcome::LatencyMissing,
        }
    } else {
        let message = match first_non_empty(stderr) {
            Some(m) => m,
            None => match first_non_empty(stdout) {
                Some(m) => m,
                None => String::from_str("Ping failed"),
            },
        };
        PingOutcome::Failed(message)
    }
}

/// A failed ping always carries a message that is not blank: it starts and
/// ends with a character that is not whitespace.
pub proof fn lemma_failure_message_not_blank(stdout: Seq<char>, stderr: Seq<char>)
    ensures
        failure_message(stdout, stderr).len() > 0,
        !is_ws(failure_message(stdout, stderr)[0]),
        !is_ws(failure_message(stdout, stderr).last()),
{
    crate::text::lemma_first_non_empty_line_shape(stderr);
    crate::text::lemma_first_non_empty_line_shape(stdout);
    reveal_strlit("Ping failed");
}

/// Where the message of a failed ping comes from: the first non-blank line
/// of the error output when there is one; otherwise the first non-blank
/// line of the standard output; otherwise the text `Ping failed`.
pub proof fn lemma_failure_message_sources(stdout: Seq<char>, stderr: Seq<char>)
    ensures
        first_non_empty_line(stderr) is Some ==> failure_message(stdout, stderr)
            == first_non_empty_line(stderr)->Some_0,
        first_non_empty_line(stderr) is None && first_non_empty_line(stdout) is Some
            ==> failure_message(stdout, stderr) == first_non_empty_line(stdout)->Some_0,
        first_non_empty_line(stderr) is None && first_non_empty_line(stdout) is None
            ==> failure_message(stdout, stderr) == "Ping failed"@,
{
}

/// The captured round-trip time is a number: one or more decimal digits,
/// then, when there is a `.`, one or more digits after it.
pub proof fn lemma_capture_is_number(s: Seq<char>, p: int)
    requires
        matches_at(s, p),
    ensures
        captured_at(s, p).len() > 0,
        is_decimal_digit(captured_at(s, p)[0]),
        is_decimal_digit(captured_at(s, p).last()),
{
    let a = number_start(s, p);
    let d = digit_run_end(s, a);
    lemma_digit_run(s, a);
    if 0 <= d && d + 1 < s.len() && s[d] == '.' && is_decimal_digit(s[d + 1]) {
        lemma_digit_run(s, d + 1);
    }
}

/// The digits between `i` and the end of its run are digits, and the run
/// does not go back.
proof fn lemma_digit_run(s: Seq<char>, i: int)
    requires
        0 <= i <= s.len(),
    ensures
        i <= digit_run_end(s, i) <= s.len(),
        forall|k: int| i <= k < digit_run_end(s, i) ==> is_decimal_digit(#[trigger] s[k]),
    decreases s.len() - i,
{
    if i < s.len() && is_decimal_digit(s[i]) {
        lemma_digit_run(s, i + 1);
    }
}

} // verus!
