//! Character-level helpers: Unicode whitespace, trimming, first non-blank
//! line, and lower-casing.

use vstd::prelude::*;

verus! {

/// The Unicode `White_Space` property: what `char::is_whitespace`,
/// `str::trim` and `\s` in a Unicode regular expression treat as whitespace.
pub open spec fn is_ws(c: char) -> bool {
    let v = c as u32;
    (0x09 <= v && v <= 0x0d) || v == 0x20 || v == 0x85 || v == 0xa0 || v == 0x1680 || (0x2000
        <= v && v <= 0x200a) || v == 0x2028 || v == 0x2029 || v == 0x202f || v == 0x205f || v
        == 0x3000
}

/// Executable form of [`is_ws`].
pub fn is_whitespace_char(c: char) -> (r: bool)
    ensures
        r == is_ws(c),
{
    let v = c as u32;
    (0x09 <= v && v <= 0x0d) || v == 0x20 || v == 0x85 || v == 0xa0 || v == 0x1680 || (0x2000
        <= v && v <= 0x200a) || v == 0x2028 || v == 0x2029 || v == 0x202f || v == 0x205f || v
        == 0x3000
}

/// `s` with its leading whitespace removed.
pub open spec fn trim_start(s: Seq<char>) -> Seq<char>
    decreases s.len(),
{
    if s.len() > 0 && is_ws(s[0]) {
        trim_start(s.drop_first())
    } else {
        s
    }
}

/// `s` with its trailing whitespace removed.
pub open spec fn trim_end(s: Seq<char>) -> Seq<char>
    decreases s.len(),
{
    if s.len() > 0 && is_ws(s.last()) {
        trim_end(s.drop_last())
    } else {
        s
    }
}

/// `s` with leading and trailing whitespace removed (what `str::trim` gives).
pub open spec fn trim(s: Seq<char>) -> Seq<char> {
    trim_end(trim_start(s))
}

/// The characters of `s` before its first line feed (all of `s` if it has none).
pub open spec fn until_newline(s: Seq<char>) -> Seq<char>
    decreases s.len(),
{
    if s.len() == 0 {
        s
    } else if s[0] == '\n' {
        Seq::empty()
    } else {
        seq![s[0]] + until_newline(s.drop_first())
    }
}

/// The first line of `s` that is not blank, trimmed; `None` when every line
/// is blank. Lines are separated by `'\n'`; a `'\r'` before it is whitespace
/// and goes with the trimming.
pub open spec fn first_non_empty_line(s: Seq<char>) -> Option<Seq<char>> {
    let rest = trim_start(s);
    if rest.len() == 0 {
        None
    } else {
        Some(trim_end(until_newline(rest)))
    }
}

proof fn lemma_trim_start_head(s: Seq<char>)
    ensures
        trim_start(s).len() > 0 ==> !is_ws(trim_start(s)[0]),
        trim_start(s).len() == 0 ==> forall|i: int| 0 <= i < s.len() ==> is_ws(#[trigger] s[i]),
    decreases s.len(),
{
    if s.len() > 0 && is_ws(s[0]) {
        lemma_trim_start_head(s.drop_first());
        if trim_start(s).len() == 0 {
            assert forall|i: int| 0 <= i < s.len() implies is_ws(#[trigger] s[i]) by {
                if i > 0 {
                    assert(s[i] == s.drop_first()[i - 1]);
                }
            }
        }
    }
}

proof fn lemma_trim_end_shape(s: Seq<char>)
    requires
        s.len() > 0,
        !is_ws(s[0]),
    ensures
        0 < trim_end(s).len() <= s.len(),
        trim_end(s)[0] == s[0],
        !is_ws(trim_end(s).last()),
        trim_end(s) == s.subrange(0, trim_end(s).len() as int),
    decreases s.len(),
{
    if is_ws(s.last()) {
        assert(s.len() > 1);
        lemma_trim_end_shape(s.drop_last());
        assert(trim_end(s) == trim_end(s.drop_last()));
        assert(s.drop_last().subrange(0, trim_end(s).len() as int) =~= s.subrange(
            0,
            trim_end(s).len() as int,
        ));
    } else {
        assert(s.subrange(0, s.len() as int) =~= s);
    }
}

proof fn lemma_until_newline_shape(s: Seq<char>)
    ensures
        until_newline(s).len() <= s.len(),
        until_newline(s) == s.subrange(0, until_newline(s).len() as int),
        forall|i: int| 0 <= i < until_newline(s).len() ==> #[trigger] until_newline(s)[i] != '\n',
        until_newline(s).len() < s.len() ==> s[until_newline(s).len() as int] == '\n',
    decreases s.len(),
{
    if s.len() > 0 && s[0] != '\n' {
        lemma_until_newline_shape(s.drop_first());
        let r = until_newline(s);
        let t = until_newline(s.drop_first());
        assert(r =~= seq![s[0]] + t);
        if r.len() < s.len() {
            assert(s[r.len() as int] == s.drop_first()[t.len() as int]);
        }
        assert(r =~= s.subrange(0, r.len() as int));
        assert forall|i: int| 0 <= i < r.len() implies #[trigger] r[i] != '\n' by {
            if i > 0 {
                assert(r[i] == t[i - 1]);
            }
        }
    } else if s.len() > 0 {
        assert(until_newline(s) =~= s.subrange(0, 0));
    }
}

/// What `first_non_empty` finds is one line of text that is not blank: it
/// is not empty, starts and ends with a character that is not whitespace,
/// and holds no line feed; it finds nothing only when every character is
/// whitespace.
pub proof fn lemma_first_non_empty_line_shape(s: Seq<char>)
    ensures
        match first_non_empty_line(s) {
            Some(t) => t.len() > 0 && !is_ws(t[0]) && !is_ws(t.last()) && forall|i: int|
                0 <= i < t.len() ==> #[trigger] t[i] != '\n',
            None => forall|i: int| 0 <= i < s.len() ==> is_ws(#[trigger] s[i]),
        },
{
    lemma_trim_start_head(s);
    let rest = trim_start(s);
    if rest.len() > 0 {
        let line = until_newline(rest);
        assert(until_newline(rest) =~= seq![rest[0]] + until_newline(rest.drop_first()));
        lemma_until_newline_shape(rest);
        lemma_trim_end_shape(line);
        let t = trim_end(line);
        assert forall|i: int| 0 <= i < t.len() implies #[trigger] t[i] != '\n' by {
            assert(t[i] == line.subrange(0, t.len() as int)[i]);
        }
    }
}

/// Trimming twice is trimming once.
pub proof fn lemma_trim_idempotent(s: Seq<char>)
    ensures
        trim(trim(s)) == trim(s),
{
    lemma_trim_start_head(s);
    let r = trim_start(s);
    if r.len() > 0 {
        lemma_trim_end_shape(r);
        let t = trim(s);
        assert(trim_start(t) == t);
        assert(trim_end(t) == t);
    }
}

/// Among ASCII characters, whitespace is exactly tab, line feed, vertical
/// tab, form feed, carriage return and space.
pub proof fn lemma_ascii_whitespace(c: char)
    ensures
        (c as u32) < 0x80 ==> (is_ws(c) <==> (c == '\t' || c == '\n' || c == '\x0b' || c
            == '\x0c' || c == '\r' || c == ' ')),
{
}

/// Every character of `s` is whitespace.
pub open spec fn all_ws(s: Seq<char>) -> bool {
    forall|i: int| 0 <= i < s.len() ==> is_ws(#[trigger] s[i])
}

/// `x` and `y` are the same text but for the case of ASCII letters.
pub open spec fn same_up_to_ascii_case(x: Seq<char>, y: Seq<char>) -> bool {
    x.len() == y.len() && forall|i: int| 0 <= i < x.len() ==> ascii_lower(#[trigger] x[i])
        == ascii_lower(y[i])
}

proof fn lemma_trim_start_ws_prefix(p: Seq<char>, x: Seq<char>)
    requires
        all_ws(p),
    ensures
        trim_start(p + x) == trim_start(x),
    decreases p.len(),
{
    if p.len() > 0 {
        assert((p + x)[0] == p[0]);
        assert((p + x).drop_first() =~= p.drop_first() + x);
        lemma_trim_start_ws_prefix(p.drop_first(), x);
    } else {
        assert(p + x =~= x);
    }
}

proof fn lemma_trim_start_append(x: Seq<char>, q: Seq<char>)
    requires
        trim_start(x).len() > 0,
    ensures
        trim_start(x + q) == trim_start(x) + q,
    decreases x.len(),
{
    assert(x.len() > 0);
    assert((x + q)[0] == x[0]);
    if is_ws(x[0]) {
        assert((x + q).drop_first() =~= x.drop_first() + q);
        lemma_trim_start_append(x.drop_first(), q);
    }
}

proof fn lemma_trim_end_ws_suffix(x: Seq<char>, q: Seq<char>)
    requires
        all_ws(q),
    ensures
        trim_end(x + q) == trim_end(x),
    decreases q.len(),
{
    if q.len() > 0 {
        assert((x + q).last() == q.last());
        assert((x + q).drop_last() =~= x + q.drop_last());
        lemma_trim_end_ws_suffix(x, q.drop_last());
    } else {
        assert(x + q =~= x);
    }
}

/// Whitespace around a text never changes its trimmed form.
pub proof fn lemma_trim_ignores_surrounding_ws(p: Seq<char>, s: Seq<char>, q: Seq<char>)
    requires
        all_ws(p),
        all_ws(q),
    ensures
        trim(p + s + q) == trim(s),
{
    assert(p + s + q =~= p + (s + q));
    lemma_trim_start_ws_prefix(p, s + q);
    lemma_trim_start_head(s);
    if trim_start(s).len() > 0 {
        lemma_trim_start_append(s, q);
        lemma_trim_end_ws_suffix(trim_start(s), q);
    } else {
        assert(all_ws(s + q));
        assert(s + q + Seq::<char>::empty() =~= s + q);
        lemma_trim_start_ws_prefix(s + q, Seq::<char>::empty());
    }
}

proof fn lemma_ws_ignores_ascii_case(c: char)
    ensures
        is_ws(ascii_lower(c)) == is_ws(c),
{
}

proof fn lemma_trim_start_case(x: Seq<char>, y: Seq<char>)
    requires
        same_up_to_ascii_case(x, y),
    ensures
        same_up_to_ascii_case(trim_start(x), trim_start(y)),
        trim_start(x).len() <= x.len(),
        trim_start(x) == x.subrange(x.len() - trim_start(x).len(), x.len() as int),
        trim_start(y) == y.subrange(y.len() - trim_start(y).len(), y.len() as int),
    decreases x.len(),
{
    if x.len() > 0 {
        lemma_ws_ignores_ascii_case(x[0]);
        lemma_ws_ignores_ascii_case(y[0]);
        if is_ws(x[0]) {
            assert(same_up_to_ascii_case(x.drop_first(), y.drop_first())) by {
                assert forall|i: int| 0 <= i < x.len() - 1 implies ascii_lower(
                    #[trigger] x.drop_first()[i],
                ) == ascii_lower(y.drop_first()[i]) by {
                    assert(x.drop_first()[i] == x[i + 1]);
                    assert(y.drop_first()[i] == y[i + 1]);
                }
            }
            lemma_trim_start_case(x.drop_first(), y.drop_first());
            assert(trim_start(x) == trim_start(x.drop_first()));
            assert(trim_start(y) == trim_start(y.drop_first()));
            assert(x.drop_first().subrange(
                x.len() - 1 - trim_start(x).len(),
                x.len() - 1,
            ) =~= x.subrange(x.len() - trim_start(x).len(), x.len() as int));
            assert(y.drop_first().subrange(
                y.len() - 1 - trim_start(y).len(),
                y.len() - 1,
            ) =~= y.subrange(y.len() - trim_start(y).len(), y.len() as int));
        } else {
            assert(x.subrange(0, x.len() as int) =~= x);
            assert(y.subrange(0, y.len() as int) =~= y);
        }
    } else {
        assert(x.subrange(0, 0) =~= x);
        assert(y.subrange(0, 0) =~= y);
    }
}

proof fn lemma_trim_end_case(x: Seq<char>, y: Seq<char>)
    requires
        same_up_to_ascii_case(x, y),
    ensures
        same_up_to_ascii_case(trim_end(x), trim_end(y)),
        trim_end(x).len() <= x.len(),
        trim_end(x) == x.subrange(0, trim_end(x).len() as int),
        trim_end(y) == y.subrange(0, trim_end(y).len() as int),
    decreases x.len(),
{
    if x.len() > 0 {
        lemma_ws_ignores_ascii_case(x.last());
        lemma_ws_ignores_ascii_case(y.last());
        if is_ws(x.last()) {
            assert(same_up_to_ascii_case(x.drop_last(), y.drop_last())) by {
                assert forall|i: int| 0 <= i < x.len() - 1 implies ascii_lower(
                    #[trigger] x.drop_last()[i],
                ) == ascii_lower(y.drop_last()[i]) by {
                    assert(x.drop_last()[i] == x[i]);
                    assert(y.drop_last()[i] == y[i]);
                }
            }
            lemma_trim_end_case(x.drop_last(), y.drop_last());
            assert(trim_end(x) == trim_end(x.drop_last()));
            assert(trim_end(y) == trim_end(y.drop_last()));
            assert(x.drop_last().subrange(0, trim_end(x).len() as int) =~= x.subrange(
                0,
                trim_end(x).len() as int,
            ));
            assert(y.drop_last().subrange(0, trim_end(y).len() as int) =~= y.subrange(
                0,
                trim_end(y).len() as int,
            ));
        } else {
            assert(x.subrange(0, x.len() as int) =~= x);
            assert(y.subrange(0, y.len() as int) =~= y);
        }
    } else {
        assert(x.subrange(0, 0) =~= x);
        assert(y.subrange(0, 0) =~= y);
    }
}

/// Trimming treats two texts that differ only in the case of ASCII letters
/// alike: their trimmed forms differ only in the same way.
pub proof fn lemma_trim_ignores_ascii_case(x: Seq<char>, y: Seq<char>)
    requires
        same_up_to_ascii_case(x, y),
    ensures
        same_up_to_ascii_case(trim(x), trim(y)),
{
    lemma_trim_start_case(x, y);
    lemma_trim_end_case(trim_start(x), trim_start(y));
}

/// Trimming takes off exactly the whitespace around a text: the text is
/// whitespace, then the trimmed text, then whitespace; and the trimmed text
/// starts and ends with a character that is not whitespace.
pub proof fn lemma_trim_is_part(s: Seq<char>)
    ensures
        exists|k: int|
            0 <= k && k + trim(s).len() <= s.len() && trim(s) == s.subrange(k, k + trim(s).len())
                && all_ws(#[trigger] s.subrange(0, k)) && all_ws(
                s.subrange(k + trim(s).len(), s.len() as int),
            ),
        trim(s).len() > 0 ==> !is_ws(trim(s)[0]) && !is_ws(trim(s).last()),
{
    lemma_trim_start_case(s, s);
    lemma_trim_start_head(s);
    lemma_trim_start_prefix_ws(s);
    let r = trim_start(s);
    let k = s.len() - r.len();
    lemma_trim_end_case(r, r);
    lemma_trim_end_suffix_ws(r);
    let t = trim(s);
    assert(t =~= s.subrange(k, k + t.len()));
    assert(s.subrange(k + t.len(), s.len() as int) =~= r.subrange(t.len() as int, r.len() as int));
    if r.len() > 0 {
        lemma_trim_end_shape(r);
    }
    assert(all_ws(s.subrange(0, k)));
}

proof fn lemma_trim_start_prefix_ws(s: Seq<char>)
    ensures
        trim_start(s).len() <= s.len(),
        all_ws(s.subrange(0, s.len() - trim_start(s).len())),
    decreases s.len(),
{
    if s.len() > 0 && is_ws(s[0]) {
        lemma_trim_start_prefix_ws(s.drop_first());
        let n = s.len() - trim_start(s).len();
        assert forall|i: int| 0 <= i < n implies is_ws(#[trigger] s.subrange(0, n)[i]) by {
            if i > 0 {
                assert(s.subrange(0, n)[i] == s.drop_first().subrange(0, n - 1)[i - 1]);
            }
        }
    }
}

proof fn lemma_trim_end_suffix_ws(s: Seq<char>)
    ensures
        trim_end(s).len() <= s.len(),
        all_ws(s.subrange(trim_end(s).len() as int, s.len() as int)),
    decreases s.len(),
{
    if s.len() > 0 && is_ws(s.last()) {
        lemma_trim_end_suffix_ws(s.drop_last());
        let n = trim_end(s).len();
        assert forall|i: int| 0 <= i < s.len() - n implies is_ws(
            #[trigger] s.subrange(n as int, s.len() as int)[i],
        ) by {
            if n + i < s.len() - 1 {
                assert(s.subrange(n as int, s.len() as int)[i] == s.drop_last().subrange(
                    n as int,
                    s.len() - 1,
                )[i]);
            }
        }
    }
}

/// `first_non_empty` finds the first line that is not blank, trimmed: what
/// it finds stands in the text after nothing but whitespace, and is followed
/// by nothing but whitespace up to the end of its line (a line feed, or the
/// end of the text).
pub proof fn lemma_first_non_empty_line_position(s: Seq<char>)
    ensures
        first_non_empty_line(s) matches Some(t) ==> exists|k: int, e: int|
            0 <= k && k + t.len() <= e <= s.len() && #[trigger] s.subrange(k, k + t.len()) == t
                && all_ws(s.subrange(0, k)) && all_ws(#[trigger] s.subrange(k + t.len(), e)) && (e
                == s.len() || s[e] == '\n'),
{
    if let Some(t) = first_non_empty_line(s) {
        lemma_trim_start_case(s, s);
        lemma_trim_start_prefix_ws(s);
        let rest = trim_start(s);
        let k = s.len() - rest.len();
        lemma_until_newline_shape(rest);
        let line = until_newline(rest);
        let e = k + line.len();
        lemma_trim_end_case(line, line);
        lemma_trim_end_suffix_ws(line);
        assert(s.subrange(k, k + t.len()) =~= t);
        assert(s.subrange(k + t.len(), e) =~= line.subrange(t.len() as int, line.len() as int));
        if e < s.len() {
            assert(s[e] == rest[line.len() as int]);
        }
        assert(all_ws(s.subrange(0, k)));
    }
}

/// The view of an optional string.
pub open spec fn opt_view(o: Option<String>) -> Option<Seq<char>> {
    match o {
        Some(s) => Some(s@),
        None => None,
    }
}

/// ASCII capital letters.
pub open spec fn is_ascii_upper(c: char) -> bool {
    'A' <= c && c <= 'Z'
}

/// The ASCII lower-case of one character: capitals map to small letters,
/// every other character to itself.
pub open spec fn ascii_lower(c: char) -> char {
    if is_ascii_upper(c) {
        ((c as u32) + 32) as char
    } else {
        c
    }
}

/// What `str::to_lowercase` returns for a string with these characters
/// (Unicode lower-case mapping, including the final-sigma rule).
pub uninterp spec fn lowercase(s: Seq<char>) -> Seq<char>;

/// `str::to_lowercase`. Trusted: the result is `lowercase` of the argument,
/// and it holds no ASCII capital letter (each of them has a lower-case
/// mapping, and no mapping yields one). Which characters it yields for the
/// others is left to the name `lowercase`.
#[verifier::external_body]
fn to_lowercase(s: &str) -> (r: String)
    ensures
        r@ == lowercase(s@),
        forall|i: int| 0 <= i < r@.len() ==> !is_ascii_upper(#[trigger] r@[i]),
{
    s.to_lowercase()
}

/// `str::to_ascii_lowercase`. Trusted: as its documentation says, ASCII
/// capitals are mapped to small letters and every other character is kept.
#[verifier::external_body]
fn to_ascii_lowercase(s: &str) -> (r: String)
    ensures
        r@ == s@.map_values(|c: char| ascii_lower(c)),
{
    s.to_ascii_lowercase()
}

/// The lower-case form of `s`. ASCII capitals are lower-cased first: the
/// Unicode mapping takes them to the same small letters, and as `A` and `a`
/// are both cased letters the final-sigma rule reads them alike, so this
/// does not change what `str::to_lowercase` gives. ASCII text is then done;
/// other text goes through `str::to_lowercase`.
pub open spec fn lower_cased(s: Seq<char>) -> Seq<char> {
    let ascii_lowered = s.map_values(|c: char| ascii_lower(c));
    if vstd::utf8::is_ascii_chars(s) {
        ascii_lowered
    } else {
        lowercase(ascii_lowered)
    }
}

/// `s` holds no ASCII capital letter.
pub open spec fn has_no_ascii_upper(s: Seq<char>) -> bool {
    forall|i: int| 0 <= i < s.len() ==> !is_ascii_upper(#[trigger] s[i])
}

/// The lower-case form of `s`, as `str::to_lowercase` computes it.
pub fn lower_case(s: &str) -> (r: String)
    ensures
        r@ == lower_cased(s@),
        has_no_ascii_upper(r@),
{
    if s.is_ascii() {
        let r = to_ascii_lowercase(s);
        assert forall|i: int| 0 <= i < r@.len() implies !is_ascii_upper(#[trigger] r@[i]) by {
            assert(r@[i] == ascii_lower(s@[i]));
        }
        r
    } else {
        let ascii_lowered = to_ascii_lowercase(s);
        to_lowercase(ascii_lowered.as_str())
    }
}

/// The characters of a string slice, in order.
pub fn chars_of(s: &str) -> (v: Vec<char>)
    ensures
        v@ == s@,
{
    let mut v: Vec<char> = Vec::new();
    for c in it: s.chars()
        invariant
            v@ == it.seq().take(it.index() as int),
            it.seq() == s@,
    {
        v.push(c);
    }
    v
}

/// Index of the first character at or after `from` that is not whitespace
/// (`v.len()` if there is none).
fn skip_whitespace(v: &Vec<char>, from: usize) -> (i: usize)
    requires
        from <= v.len(),
    ensures
        from <= i <= v.len(),
        trim_start(v@.subrange(from as int, v.len() as int)) == v@.subrange(
            i as int,
            v.len() as int,
        ),
        i < v.len() ==> !is_ws(v@[i as int]),
        forall|k: int| from <= k < i ==> is_ws(#[trigger] v@[k]),
{
    let n = v.len();
    let mut i = from;
    while i < n && is_whitespace_char(v[i])
        invariant
            n == v.len(),
            from <= i <= n,
            trim_start(v@.subrange(from as int, n as int)) == trim_start(
                v@.subrange(i as int, n as int),
            ),
            forall|k: int| from <= k < i ==> is_ws(#[trigger] v@[k]),
        decreases n - i,
    {
        assert(v@.subrange(i as int, n as int).drop_first() =~= v@.subrange(
            i + 1,
            n as int,
        ));
        i = i + 1;
    }
    i
}

/// End of the trimmed part of `v[from..to]`: the index just after its last
/// character that is not whitespace (`from` if there is none).
fn skip_trailing_whitespace(v: &Vec<char>, from: usize, to: usize) -> (j: usize)
    requires
        from <= to <= v.len(),
    ensures
        from <= j <= to,
        trim_end(v@.subrange(from as int, to as int)) == v@.subrange(from as int, j as int),
{
    let mut j = to;
    while j > from && is_whitespace_char(v[j - 1])
        invariant
            from <= j <= to <= v.len(),
            trim_end(v@.subrange(from as int, to as int)) == trim_end(
                v@.subrange(from as int, j as int),
            ),
        decreases j,
    {
        assert(v@.subrange(from as int, j as int).drop_last() =~= v@.subrange(
            from as int,
            j - 1,
        ));
        j = j - 1;
    }
    j
}

/// Bounds of the trimmed part of `v`.
pub fn trim_bounds(v: &Vec<char>) -> (r: (usize, usize))
    ensures
        r.0 <= r.1 <= v.len(),
        v@.subrange(r.0 as int, r.1 as int) == trim(v@),
{
    let a = skip_whitespace(v, 0);
    assert(v@.subrange(0, v.len() as int) =~= v@);
    let b = skip_trailing_whitespace(v, a, v.len());
    (a, b)
}

/// `s` with leading and trailing whitespace removed, as an owned string.
pub fn trimmed(s: &str) -> (r: String)
    ensures
        r@ == trim(s@),
{
    let v = chars_of(s);
    let (a, b) = trim_bounds(&v);
    s.substring_char(a, b).to_owned()
}

/// Index of the first line feed at or after `from` (`v.len()` if none).
fn line_end(v: &Vec<char>, from: usize) -> (e: usize)
    requires
        from <= v.len(),
    ensures
        from <= e <= v.len(),
        until_newline(v@.subrange(from as int, v.len() as int)) == v@.subrange(
            from as int,
            e as int,
        ),
{
    let n = v.len();
    let mut e = from;
    while e < n && v[e] != '\n'
        invariant
            n == v.len(),
            from <= e <= n,
            until_newline(v@.subrange(from as int, n as int)) == v@.subrange(from as int, e as int)
                + until_newline(v@.subrange(e as int, n as int)),
        decreases n - e,
    {
        assert(v@.subrange(e as int, n as int).drop_first() =~= v@.subrange(e + 1, n as int));
        assert(v@.subrange(from as int, e as int) + seq![v@[e as int]] =~= v@.subrange(
            from as int,
            e + 1,
        ));
        assert(v@.subrange(from as int, e as int) + seq![v@[e as int]] + until_newline(
            v@.subrange(e + 1, n as int),
        ) =~= v@.subrange(from as int, e as int) + (seq![v@[e as int]] + until_newline(
            v@.subrange(e + 1, n as int),
        )));
        e = e + 1;
    }
    assert(v@.subrange(from as int, e as int) + until_newline(v@.subrange(e as int, n as int))
        =~= v@.subrange(from as int, e as int));
    e
}

/// The first line of `value` that is not blank, trimmed; `None` when there
/// is none.
pub fn first_non_empty(value: &str) -> (r: Option<String>)
    ensures
        opt_view(r) == first_non_empty_line(value@),
{
    let v = chars_of(value);
    let n = v.len();
    let a = skip_whitespace(&v, 0);
    assert(v@.subrange(0, n as int) =~= v@);
    if a == n {
        None
    } else {
        let e = line_end(&v, a);
        let b = skip_trailing_whitespace(&v, a, e);
        Some(value.substring_char(a, b).to_owned())
    }
}

} // verus!
