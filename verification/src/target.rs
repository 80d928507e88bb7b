//! Validation of what a user submits for a tracked host: the ping target,
//! the ping interval and the optional label.

use vstd::prelude::*;
use vstd::utf8::encode_utf8;
use crate::text::{
    all_ws, ascii_lower, has_no_ascii_upper, is_ascii_upper, is_ws, lower_cased, lower_case,
    opt_view, same_up_to_ascii_case, trim, trim_end, trim_start, trimmed,
};
use vstd::utf8::is_ascii_chars;

verus! {

/// Longest accepted target, in UTF-8 bytes (the longest DNS name).
pub const MAX_TARGET_BYTES: usize = 253;

/// Answer to an empty target.
pub open spec fn msg_target_required() -> Seq<char> {
    "Target is required"@
}

/// Answer to a target longer than 253 bytes.
pub open spec fn msg_target_too_long() -> Seq<char> {
    "Target is too long"@
}

/// Answer to a target with other characters than a host name or address has.
pub open spec fn msg_target_invalid() -> Seq<char> {
    "Use a hostname, IPv4 address, or IPv6 address"@
}

/// Answer to an interval other than 1, 2, 5 or 10 seconds.
pub open spec fn msg_interval_invalid() -> Seq<char> {
    "Interval must be 1, 2, 5, or 10 seconds"@
}

/// Characters a hostname, IPv4 or IPv6 address is made of: ASCII letters,
/// digits, `.`, `-` and `:`.
pub open spec fn is_target_char(c: char) -> bool {
    ('a' <= c && c <= 'z') || ('A' <= c && c <= 'Z') || ('0' <= c && c <= '9') || c == '.' || c
        == '-' || c == ':'
}

/// The verdict on an already trimmed and lower-cased target.
pub open spec fn target_verdict(t: Seq<char>) -> Result<Seq<char>, Seq<char>> {
    if t.len() == 0 {
        Err(msg_target_required())
    } else if encode_utf8(t).len() > MAX_TARGET_BYTES {
        Err(msg_target_too_long())
    } else if forall|i: int| 0 <= i < t.len() ==> is_target_char(#[trigger] t[i]) {
        Ok(t)
    } else {
        Err(msg_target_invalid())
    }
}

/// What `normalize_target` answers for the raw input `raw`.
pub open spec fn normalized_target(raw: Seq<char>) -> Result<Seq<char>, Seq<char>> {
    target_verdict(lower_cased(trim(raw)))
}

/// The view of a result whose both sides are strings.
pub open spec fn result_view(r: Result<String, String>) -> Result<Seq<char>, Seq<char>> {
    match r {
        Ok(s) => Ok(s@),
        Err(e) => Err(e@),
    }
}

/// The intervals, in seconds, at which a host can be pinged.
pub open spec fn is_allowed_interval(seconds: i64) -> bool {
    seconds == 1 || seconds == 2 || seconds == 5 || seconds == 10
}

/// The label kept for a host: the trimmed text, or none when that is empty.
pub open spec fn normalized_label(label: Option<Seq<char>>) -> Option<Seq<char>> {
    match label {
        Some(v) => if trim(v).len() == 0 {
            None
        } else {
            Some(trim(v))
        },
        None => None,
    }
}

/// Number of bytes the UTF-8 encoding of `c` takes.
fn utf8_width(c: char) -> (w: usize)
    ensures
        w == vstd::utf8::encode_scalar(c as u32).len(),
{
    let v = c as u32;
    if v <= 0x7f {
        1
    } else if v <= 0x7ff {
        2
    } else if v <= 0xffff {
        3
    } else {
        4
    }
}

/// Whether the UTF-8 encoding of `v` is longer than `limit` bytes.
fn utf8_longer_than(v: &Vec<char>, limit: usize) -> (r: bool)
    requires
        limit <= 1000,
    ensures
        r == (encode_utf8(v@).len() > limit),
{
    let mut total: usize = 0;
    let mut i: usize = 0;
    assert(v@.skip(0) =~= v@);
    while i < v.len()
        invariant
            i <= v.len(),
            total <= limit,
            limit <= 1000,
            encode_utf8(v@).len() == total + encode_utf8(v@.skip(i as int)).len(),
        decreases v.len() - i,
    {
        assert(v@.skip(i as int).drop_first() =~= v@.skip(i + 1));
        assert(v@.skip(i as int)[0] == v@[i as int]);
        total = total + utf8_width(v[i]);
        i = i + 1;
        if total > limit {
            return true;
        }
    }
    assert(v@.skip(i as int) =~= Seq::<char>::empty());
    false
}

/// Executable form of [`is_target_char`].
fn is_target_char_exec(c: char) -> (r: bool)
    ensures
        r == is_target_char(c),
{
    ('a' <= c && c <= 'z') || ('A' <= c && c <= 'Z') || ('0' <= c && c <= '9') || c == '.' || c
        == '-' || c == ':'
}

/// Judges a target that is already trimmed and lower-cased: it must be
/// non-empty, at most 253 bytes long, and made of target characters only.
pub fn check_target(t: String) -> (r: Result<String, String>)
    ensures
        result_view(r) == target_verdict(t@),
{
    if t.as_str().is_empty() {
        return Err(String::from_str("Target is required"));
    }
    let v = crate::text::chars_of(t.as_str());
    if utf8_longer_than(&v, MAX_TARGET_BYTES) {
        return Err(String::from_str("Target is too long"));
    }
    let mut i: usize = 0;
    while i < v.len()
        invariant
            v@ == t@,
            i <= v.len(),
            t@.len() > 0,
            encode_utf8(t@).len() <= MAX_TARGET_BYTES,
            forall|k: int| 0 <= k < i ==> is_target_char(#[trigger] v@[k]),
        decreases v.len() - i,
    {
        if !is_target_char_exec(v[i]) {
            assert(!is_target_char(t@[i as int]));
            return Err(String::from_str("Use a hostname, IPv4 address, or IPv6 address"));
        }
        i = i + 1;
    }
    Ok(t)
}

/// Trims and lower-cases a ping target, then checks it: the target must be
/// non-empty, at most 253 bytes, and only ASCII letters, digits, `.`, `-`
/// and `:`. Each refusal comes with its own message.
pub fn normalize_target(target: &str) -> (r: Result<String, String>)
    ensures
        result_view(r) == normalized_target(target@),
        r matches Ok(t) ==> has_no_ascii_upper(t@),
{
    let t = trimmed(target);
    let lowered = lower_case(t.as_str());
    check_target(lowered)
}

/// Normalizing is idempotent: a target that `normalize_target` accepted
/// (it is accepted and holds no ASCII capital) is accepted again, unchanged,
/// when it is normalized a second time.
pub proof fn lemma_normalize_target_idempotent(raw: Seq<char>, t: Seq<char>)
    requires
        normalized_target(raw) == Ok::<Seq<char>, Seq<char>>(t),
        has_no_ascii_upper(t),
    ensures
        normalized_target(t) == Ok::<Seq<char>, Seq<char>>(t),
{
    let x = lower_cased(trim(raw));
    assert(target_verdict(x) == Ok::<Seq<char>, Seq<char>>(t));
    assert(x == t);
    assert forall|i: int| 0 <= i < t.len() implies !is_ws(#[trigger] t[i]) by {
        assert(is_target_char(t[i]));
    }
    assert(trim_start(t) == t);
    assert(trim_end(t) == t) by {
        if t.len() > 0 {
            assert(!is_ws(t.last()));
        }
    }
    assert(vstd::utf8::is_ascii_chars(t)) by {
        assert forall|i: int| 0 <= i < t.len() implies '\0' <= #[trigger] t[i] <= '\u{7f}' by {
            assert(is_target_char(t[i]));
        }
    }
    assert(t.map_values(|c: char| crate::text::ascii_lower(c)) =~= t);
}

/// Whitespace around a target never changes what normalizing it answers:
/// `normalize_target` gives the same answer for `s` and for `s` with any
/// whitespace before and after it.
pub proof fn lemma_normalize_target_ignores_surrounding_ws(
    before: Seq<char>,
    s: Seq<char>,
    after: Seq<char>,
)
    requires
        all_ws(before),
        all_ws(after),
    ensures
        normalized_target(before + s + after) == normalized_target(s),
{
    crate::text::lemma_trim_ignores_surrounding_ws(before, s, after);
}

/// The case of ASCII letters never changes what normalizing a target
/// answers: `normalize_target` gives the same answer for two texts that
/// differ only in the case of ASCII letters (such as a text and its ASCII
/// upper case).
pub proof fn lemma_normalize_target_ignores_ascii_case(a: Seq<char>, b: Seq<char>)
    requires
        same_up_to_ascii_case(a, b),
    ensures
        normalized_target(a) == normalized_target(b),
{
    crate::text::lemma_trim_ignores_ascii_case(a, b);
    let ta = trim(a);
    let tb = trim(b);
    assert(is_ascii_chars(ta) == is_ascii_chars(tb)) by {
        if is_ascii_chars(ta) {
            assert forall|i: int| 0 <= i < tb.len() implies '\0' <= #[trigger] tb[i] <= '\u{7f}' by {
                assert(ascii_lower(ta[i]) == ascii_lower(tb[i]));
                assert('\0' <= ta[i] <= '\u{7f}');
                if !is_ascii_upper(tb[i]) {
                    assert(ascii_lower(tb[i]) == tb[i]);
                }
            }
        }
        if is_ascii_chars(tb) {
            assert forall|i: int| 0 <= i < ta.len() implies '\0' <= #[trigger] ta[i] <= '\u{7f}' by {
                assert(ascii_lower(ta[i]) == ascii_lower(tb[i]));
                assert('\0' <= tb[i] <= '\u{7f}');
                if !is_ascii_upper(ta[i]) {
                    assert(ascii_lower(ta[i]) == ta[i]);
                }
            }
        }
    }
    assert(ta.map_values(|c: char| ascii_lower(c)) =~= tb.map_values(|c: char| ascii_lower(c)));
}

/// Accepts a ping interval of 1, 2, 5 or 10 seconds and refuses any other.
pub fn normalize_interval(interval_seconds: i64) -> (r: Result<i64, String>)
    ensures
        r is Ok <==> is_allowed_interval(interval_seconds),
        r is Ok <==> (interval_seconds == 1 || interval_seconds == 2 || interval_seconds == 5
            || interval_seconds == 10),
        r matches Ok(v) ==> v == interval_seconds,
        r matches Err(e) ==> e@ == msg_interval_invalid(),
        r matches Err(e) ==> e@ == "Interval must be 1, 2, 5, or 10 seconds"@,
{
    if interval_seconds == 1 || interval_seconds == 2 || interval_seconds == 5 || interval_seconds
        == 10 {
        Ok(interval_seconds)
    } else {
        Err(String::from_str("Interval must be 1, 2, 5, or 10 seconds"))
    }
}

/// Trims a label; a label that is blank becomes no label.
pub fn normalize_label(label: Option<String>) -> (r: Option<String>)
    ensures
        opt_view(r) == normalized_label(opt_view(label)),
{
    match label {
        Some(value) => {
            let t = trimmed(value.as_str());
            if t.as_str().is_empty() {
                None
            } else {
                Some(t)
            }
        },
        None => None,
    }
}

/// The intervals a host can be pinged at are exactly 1, 2, 5 and 10
/// seconds.
pub proof fn lemma_allowed_intervals(seconds: i64)
    ensures
        is_allowed_interval(seconds) <==> (seconds == 1 || seconds == 2 || seconds == 5 || seconds
            == 10),
{
}

/// A label is dropped only when it is blank; any other label is kept,
/// trimmed, whatever its length or content; no label stays no label.
pub proof fn lemma_label_kept_unless_blank(v: Seq<char>)
    ensures
        trim(v).len() > 0 ==> normalized_label(Some(v)) == Some(trim(v)),
        trim(v).len() == 0 ==> normalized_label(Some(v)) == None::<Seq<char>>,
        normalized_label(None) == None::<Seq<char>>,
{
}

/// An accepted target holds nothing but ASCII letters, ASCII digits, `.`,
/// `-` and `:`, is not empty and is at most 253 characters long.
pub proof fn lemma_accepted_target_characters(raw: Seq<char>, t: Seq<char>)
    requires
        normalized_target(raw) == Ok::<Seq<char>, Seq<char>>(t),
    ensures
        0 < t.len() <= 253,
        forall|i: int|
            0 <= i < t.len() ==> {
                let c = #[trigger] t[i];
                ('a' <= c <= 'z') || ('A' <= c <= 'Z') || ('0' <= c <= '9') || c == '.' || c
                    == '-' || c == ':'
            },
{
    let x = lower_cased(trim(raw));
    assert(target_verdict(x) == Ok::<Seq<char>, Seq<char>>(t));
    assert(x == t);
    assert(is_ascii_chars(t)) by {
        assert forall|i: int| 0 <= i < t.len() implies '\0' <= #[trigger] t[i] <= '\u{7f}' by {
            assert(is_target_char(t[i]));
        }
    }
    vstd::utf8::is_ascii_chars_encode_utf8(t);
    assert forall|i: int| 0 <= i < t.len() implies {
        let c = #[trigger] t[i];
        ('a' <= c <= 'z') || ('A' <= c <= 'Z') || ('0' <= c <= '9') || c == '.' || c == '-' || c
            == ':'
    } by {
        assert(is_target_char(t[i]));
    }
}

/// An input that is blank is refused as missing; an ASCII input whose
/// trimmed text is longer than 253 characters is refused as too long.
pub proof fn lemma_refused_targets(raw: Seq<char>)
    ensures
        trim(raw).len() == 0 ==> normalized_target(raw) == Err::<Seq<char>, Seq<char>>(
            "Target is required"@,
        ),
        is_ascii_chars(raw) && trim(raw).len() > 253 ==> normalized_target(raw) == Err::<
            Seq<char>,
            Seq<char>,
        >("Target is too long"@),
{
    let t = trim(raw);
    if t.len() == 0 {
        assert(is_ascii_chars(t));
        assert(t.map_values(|c: char| ascii_lower(c)) =~= t);
    }
    if is_ascii_chars(raw) && t.len() > 253 {
        crate::text::lemma_trim_ignores_ascii_case(raw, raw);
        crate::text::lemma_trim_is_part(raw);
        let k = choose|k: int|
            0 <= k && k + t.len() <= raw.len() && t == raw.subrange(k, k + t.len())
                && crate::text::all_ws(#[trigger] raw.subrange(0, k)) && crate::text::all_ws(
                raw.subrange(k + t.len(), raw.len() as int),
            );
        assert(is_ascii_chars(t)) by {
            assert forall|i: int| 0 <= i < t.len() implies '\0' <= #[trigger] t[i] <= '\u{7f}' by {
                assert(t[i] == raw[k + i]);
            }
        }
        let l = t.map_values(|c: char| ascii_lower(c));
        assert(is_ascii_chars(l)) by {
            assert forall|i: int| 0 <= i < l.len() implies '\0' <= #[trigger] l[i] <= '\u{7f}' by {
                assert(l[i] == ascii_lower(t[i]));
            }
        }
        vstd::utf8::is_ascii_chars_encode_utf8(l);
    }
}

/// An input whose trimmed text is 1 to 253 ASCII characters and holds a
/// character that is not an ASCII letter, digit, `.`, `-` or `:` is refused
/// as not a host name or address.
pub proof fn lemma_foreign_character_refused(raw: Seq<char>, j: int)
    requires
        is_ascii_chars(trim(raw)),
        0 < trim(raw).len() <= 253,
        0 <= j < trim(raw).len(),
        ({
            let c = trim(raw)[j];
            !(('a' <= c <= 'z') || ('A' <= c <= 'Z') || ('0' <= c <= '9') || c == '.' || c == '-'
                || c == ':')
        }),
    ensures
        normalized_target(raw) == Err::<Seq<char>, Seq<char>>(
            "Use a hostname, IPv4 address, or IPv6 address"@,
        ),
{
    let t = trim(raw);
    let l = t.map_values(|c: char| ascii_lower(c));
    assert(is_ascii_chars(l)) by {
        assert forall|i: int| 0 <= i < l.len() implies '\0' <= #[trigger] l[i] <= '\u{7f}' by {
            assert(l[i] == ascii_lower(t[i]));
        }
    }
    vstd::utf8::is_ascii_chars_encode_utf8(l);
    assert(l[j] == ascii_lower(t[j]));
    assert(!is_target_char(l[j]));
}

/// A plain host name or address is accepted as it is: when the trimmed
/// input is made of small ASCII letters, digits, `.`, `-` and `:` only, and
/// is 1 to 253 characters long, normalizing answers it unchanged.
pub proof fn lemma_plain_target_accepted(raw: Seq<char>)
    requires
        0 < trim(raw).len() <= 253,
        forall|i: int|
            0 <= i < trim(raw).len() ==> {
                let c = #[trigger] trim(raw)[i];
                ('a' <= c <= 'z') || ('0' <= c <= '9') || c == '.' || c == '-' || c == ':'
            },
    ensures
        normalized_target(raw) == Ok::<Seq<char>, Seq<char>>(trim(raw)),
{
    let t = trim(raw);
    assert(is_ascii_chars(t)) by {
        assert forall|i: int| 0 <= i < t.len() implies '\0' <= #[trigger] t[i] <= '\u{7f}' by {
            let c = t[i];
            assert(('a' <= c <= 'z') || ('0' <= c <= '9') || c == '.' || c == '-' || c == ':');
        }
    }
    vstd::utf8::is_ascii_chars_encode_utf8(t);
    assert forall|i: int| 0 <= i < t.len() implies is_target_char(#[trigger] t[i]) by {
        let c = t[i];
        assert(('a' <= c <= 'z') || ('0' <= c <= '9') || c == '.' || c == '-' || c == ':');
    }
    assert forall|i: int| 0 <= i < t.len() implies ascii_lower(#[trigger] t[i]) == t[i] by {
        let c = t[i];
        assert(('a' <= c <= 'z') || ('0' <= c <= '9') || c == '.' || c == '-' || c == ':');
    }
    assert(t.map_values(|c: char| ascii_lower(c)) =~= t);
}

/// Normalizing a label is idempotent: a kept label is kept unchanged when
/// it is normalized again.
pub proof fn lemma_normalize_label_idempotent(label: Option<Seq<char>>)
    ensures
        normalized_label(normalized_label(label)) == normalized_label(label),
{
    if let Some(v) = label {
        crate::text::lemma_trim_idempotent(v);
    }
}

/// A host as the user asked to add it, once its fields have been checked.
pub struct NewHost {
    pub target: String,
    pub label: Option<String>,
    pub interval_seconds: i64,
}

/// Checks the fields of a host to add, in the order the user sees errors:
/// first the target, then the interval. The label never fails; blank
/// labels are dropped.
pub fn prepare_new_host(target: &str, label: Option<String>, interval_seconds: i64) -> (r: Result<
    NewHost,
    String,
>)
    ensures
        match normalized_target(target@) {
            Err(m) => r matches Err(e) && e@ == m,
            Ok(t) => if !is_allowed_interval(interval_seconds) {
                r matches Err(e) && e@ == msg_interval_invalid()
            } else {
                r matches Ok(h) && h.target@ == t && h.interval_seconds == interval_seconds
                    && opt_view(h.label) == normalized_label(opt_view(label))
            },
        },
{
    let target = normalize_target(target)?;
    let interval_seconds = normalize_interval(interval_seconds)?;
    let label = normalize_label(label);
    Ok(NewHost { target, label, interval_seconds })
}

} // verus!
