//! The response template engine.
//!
//! A template is text with query spans in it, each written `$json:<path>$`. A
//! span opens at `$json:`, runs over a path of at least one character, none of
//! them a brace or a `$`, and closes at the `$` that follows the path. To
//! render a template against the body of a reply, each span is replaced by
//! what its path finds in the body, read as JSON; all other text is kept.

use vstd::prelude::*;
use crate::text::{chars_of, push_chars, string_of};

verus! {

/// The longest path that is handed to the query engine. The engine parses a
/// path by recursion, one level for each step of the path.
pub const MAX_PATH_LEN: usize = 256;

/// What the query engine finds: the JSON text of each value that the JSONPath
/// `query` selects in the document `json`, in the engine's order, or nothing
/// where `json` is no JSON document or the engine refuses the query.
pub uninterp spec fn json_path_matches(json: Seq<char>, query: Seq<char>) -> Option<
    Seq<Seq<char>>,
>;

/// Whether a colon stands among the first `n` characters of a path with no
/// `]` after it: a slice is open there.
pub open spec fn colon_pending(path: Seq<char>, n: int) -> bool
    decreases n,
{
    if n <= 0 {
        false
    } else if path[n - 1] == ':' {
        true
    } else if path[n - 1] == ']' {
        false
    } else {
        colon_pending(path, n - 1)
    }
}

/// A digit from 1 to 9.
pub open spec fn is_nonzero_digit(c: char) -> bool {
    '1' <= c && c <= '9'
}

/// A path that the query engine answers for every document: of bounded
/// length, without a filter, which `?` opens, and without the step zero in a
/// slice. The step of a slice stands behind the second colon inside one pair
/// of brackets; it is not zero where a digit from 1 to 9 follows that colon at
/// once.
pub open spec fn plain_path(path: Seq<char>) -> bool {
    &&& path.len() <= MAX_PATH_LEN
    &&& forall|k: int| 0 <= k < path.len() ==> #[trigger] path[k] != '?'
    &&& forall|k: int|
        0 <= k < path.len() && #[trigger] path[k] == ':' && colon_pending(path, k) ==> k + 1
            < path.len() && is_nonzero_digit(path[k + 1])
}

/// The query for a path: the path taken from the root of the document.
pub open spec fn query_of(path: Seq<char>) -> Seq<char> {
    seq!['$', '.'] + path
}

/// Evaluates a query with `jsonpath_lib::select_as`, which parses `json` with
/// serde_json and selects by `query`, and hands out the JSON text of each
/// selected value as serde_json prints it. The query is that of a plain path:
/// the crate answers such a query for every document, with matches or with an
/// error, while a filter, or a slice with the step zero, can make it stop the
/// program.
#[verifier::external_body]
fn select_matches(json: &str, query: &str) -> (found: Option<Vec<String>>)
    requires
        exists|path: Seq<char>| plain_path(path) && query@ == #[trigger] query_of(path),
    ensures
        found.deep_view() == json_path_matches(json@, query@),
{
    match jsonpath_lib::select_as::<serde_json::Value>(json, query) {
        Ok(values) => Some(values.iter().map(|v| v.to_string()).collect()),
        Err(_) => None,
    }
}

/// `s` without the pair of double quotes around it, if it has one.
pub open spec fn unquoted(s: Seq<char>) -> Seq<char> {
    if s.len() >= 2 && s[0] == '"' && s[s.len() - 1] == '"' {
        s.subrange(1, s.len() - 1)
    } else {
        s
    }
}

/// The text that stands for the matches of a query: the first match, without
/// the quotes of a JSON string; empty where nothing was found.
pub open spec fn match_text(found: Option<Seq<Seq<char>>>) -> Seq<char> {
    match found {
        Some(matches) => if matches.len() > 0 {
            unquoted(matches[0])
        } else {
            Seq::empty()
        },
        None => Seq::empty(),
    }
}

/// A path finds something in a body: it is plain, the body is JSON, and the
/// query selects at least one value.
pub open spec fn path_finds(path: Seq<char>, body: Seq<char>) -> bool {
    &&& plain_path(path)
    &&& json_path_matches(body, query_of(path)) matches Some(matches)
    &&& matches.len() > 0
}

/// What a path finds in a body, as text. A path that finds nothing gives the
/// empty text.
pub open spec fn path_value(path: Seq<char>, body: Seq<char>) -> Seq<char> {
    if path_finds(path, body) {
        match_text(json_path_matches(body, query_of(path)))
    } else {
        Seq::empty()
    }
}

/// A character that a path can hold: any but a brace and `$`.
pub open spec fn is_path_char(c: char) -> bool {
    c != '{' && c != '}' && c != '$'
}

/// The text `$json:` stands at position `i` of `t`.
pub open spec fn opens_at(t: Seq<char>, i: int) -> bool {
    &&& 0 <= i
    &&& i + 6 <= t.len()
    &&& t[i] == '$'
    &&& t[i + 1] == 'j'
    &&& t[i + 2] == 's'
    &&& t[i + 3] == 'o'
    &&& t[i + 4] == 'n'
    &&& t[i + 5] == ':'
}

/// The end of the run of path characters that starts at `i`.
pub open spec fn path_end(t: Seq<char>, i: int) -> int
    decreases t.len() - i,
{
    if 0 <= i < t.len() && is_path_char(t[i]) {
        path_end(t, i + 1)
    } else {
        i
    }
}

/// Where the span that opens at position `i` of `t` closes: the position of
/// the `$` that follows its path, or -1 where no span opens at `i`. A span
/// opens where `$json:` stands, a path of at least one character follows, and
/// a `$` follows the path.
pub open spec fn span_close(t: Seq<char>, i: int) -> int {
    if opens_at(t, i) && i + 6 < path_end(t, i + 6) < t.len() && t[path_end(t, i + 6)] == '$' {
        path_end(t, i + 6)
    } else {
        -1
    }
}

/// The path of the span that opens at `i` and closes at `close`.
pub open spec fn span_path(t: Seq<char>, i: int, close: int) -> Seq<char> {
    t.subrange(i + 6, close)
}

/// The template from position `i` on, rendered against `body`.
pub open spec fn resolved_from(t: Seq<char>, i: int, body: Seq<char>) -> Seq<char>
    decreases t.len() - i,
    via resolved_from_decreases
{
    if i < 0 || i >= t.len() {
        Seq::empty()
    } else if span_close(t, i) >= 0 {
        path_value(span_path(t, i, span_close(t, i)), body) + resolved_from(
            t,
            span_close(t, i) + 1,
            body,
        )
    } else {
        seq![t[i]] + resolved_from(t, i + 1, body)
    }
}

#[via_fn]
proof fn resolved_from_decreases(t: Seq<char>, i: int, body: Seq<char>) {
    if span_close(t, i) >= 0 {
        lemma_span_close(t, i);
    }
}

/// The template rendered against `body`: each span replaced by what its path
/// finds, all other text kept.
pub open spec fn resolved(t: Seq<char>, body: Seq<char>) -> Seq<char> {
    resolved_from(t, 0, body)
}

/// The paths of the spans of the template from position `i` on that find
/// nothing in `body`, in their order.
pub open spec fn unresolved_from(t: Seq<char>, i: int, body: Seq<char>) -> Seq<Seq<char>>
    decreases t.len() - i,
    via unresolved_from_decreases
{
    if i < 0 || i >= t.len() {
        Seq::empty()
    } else if span_close(t, i) >= 0 {
        if path_finds(span_path(t, i, span_close(t, i)), body) {
            unresolved_from(t, span_close(t, i) + 1, body)
        } else {
            seq![span_path(t, i, span_close(t, i))] + unresolved_from(
                t,
                span_close(t, i) + 1,
                body,
            )
        }
    } else {
        unresolved_from(t, i + 1, body)
    }
}

#[via_fn]
proof fn unresolved_from_decreases(t: Seq<char>, i: int, body: Seq<char>) {
    if span_close(t, i) >= 0 {
        lemma_span_close(t, i);
    }
}

/// The paths of the spans of a template that find nothing in `body`, in their
/// order. Each of them renders as the empty text.
pub open spec fn unresolved(t: Seq<char>, body: Seq<char>) -> Seq<Seq<char>> {
    unresolved_from(t, 0, body)
}

/// No span opens anywhere in `t`.
pub open spec fn no_span(t: Seq<char>) -> bool {
    forall|i: int| span_close(t, i) < 0
}

/// A run of path characters ends at or after its start, inside the text, at
/// a brace, at a `$` or at the end.
pub proof fn lemma_path_end(t: Seq<char>, i: int)
    requires
        0 <= i <= t.len(),
    ensures
        i <= path_end(t, i) <= t.len(),
        forall|k: int| i <= k < path_end(t, i) ==> is_path_char(#[trigger] t[k]),
        path_end(t, i) < t.len() ==> !is_path_char(t[path_end(t, i)]),
    decreases t.len() - i,
{
    if i < t.len() && is_path_char(t[i]) {
        lemma_path_end(t, i + 1);
    }
}

/// A span closes inside the text at a `$`, after a path of at least one
/// character that holds no brace and no `$`: the first `$` after its opening
/// closes it.
pub proof fn lemma_span_close(t: Seq<char>, i: int)
    requires
        span_close(t, i) >= 0,
    ensures
        opens_at(t, i),
        i + 7 <= span_close(t, i) < t.len(),
        t[span_close(t, i)] == '$',
        forall|k: int| i + 6 <= k < span_close(t, i) ==> is_path_char(#[trigger] t[k]),
{
    lemma_path_end(t, i + 6);
}

/// Two spans with text between them are rendered each on its own: the
/// template `$json:<first>$<between>$json:<second>$` gives what the first
/// path finds, the text between, and what the second path finds.
pub proof fn lemma_two_spans(
    first: Seq<char>,
    between: Seq<char>,
    second: Seq<char>,
    body: Seq<char>,
)
    requires
        first.len() > 0,
        second.len() > 0,
        forall|k: int| 0 <= k < first.len() ==> is_path_char(#[trigger] first[k]),
        forall|k: int| 0 <= k < second.len() ==> is_path_char(#[trigger] second[k]),
        forall|k: int| 0 <= k < between.len() ==> #[trigger] between[k] != '$',
    ensures
        resolved(span_text(first) + between + span_text(second), body) == path_value(first, body)
            + between + path_value(second, body),
{
    let t = span_text(first) + between + span_text(second);
    let a = span_text(first).len() as int;
    let b = a + between.len();
    assert(a == first.len() + 7);
    assert(t.len() == b + second.len() + 7);
    assert(t.subrange(0, a) =~= span_text(first));
    assert(t.subrange(b, b + second.len() + 7) =~= span_text(second));
    lemma_span_at(t, 0, first);
    lemma_span_at(t, b, second);
    assert forall|k: int| a <= k < b implies #[trigger] t[k] != '$' by {
        assert(t[k] == between[k - a]);
    }
    lemma_kept(t, a, b, body);
    assert(t.subrange(a, b) =~= between);
    assert(resolved_from(t, t.len() as int, body) == Seq::<char>::empty());
    assert(path_value(first, body) + (between + (path_value(second, body) + Seq::<char>::empty()))
        == path_value(first, body) + between + path_value(second, body));
}

/// The text of a span with the path given.
pub open spec fn span_text(path: Seq<char>) -> Seq<char> {
    seq!['$', 'j', 's', 'o', 'n', ':'] + path + seq!['$']
}

proof fn lemma_span_at(t: Seq<char>, i: int, path: Seq<char>)
    requires
        0 <= i,
        i + path.len() + 7 <= t.len(),
        t.subrange(i, i + path.len() + 7) == span_text(path),
        path.len() > 0,
        forall|k: int| 0 <= k < path.len() ==> is_path_char(#[trigger] path[k]),
    ensures
        span_close(t, i) == i + 6 + path.len(),
        span_path(t, i, span_close(t, i)) == path,
{
    let piece = t.subrange(i, i + path.len() + 7);
    assert forall|k: int| 0 <= k < path.len() + 7 implies t[i + k] == #[trigger] span_text(path)[k] by {
        assert(piece[k] == t[i + k]);
    }
    assert(t[i] == span_text(path)[0]);
    assert(t[i + 1] == span_text(path)[1]);
    assert(t[i + 2] == span_text(path)[2]);
    assert(t[i + 3] == span_text(path)[3]);
    assert(t[i + 4] == span_text(path)[4]);
    assert(t[i + 5] == span_text(path)[5]);
    assert(t[i + 6 + path.len()] == span_text(path)[6 + path.len() as int]);
    assert(span_text(path)[6 + path.len() as int] == '$');
    assert forall|m: int| 0 <= m < path.len() implies t[i + 6 + m] == #[trigger] span_text(
        path,
    )[6 + m] by {
        assert(piece[6 + m] == t[i + 6 + m]);
    }
    lemma_path_run(t, i + 6, path, 0);
    assert(t.subrange(i + 6, i + 6 + path.len()) =~= path) by {
        assert forall|k: int| 0 <= k < path.len() implies t[i + 6 + k] == path[k] by {
            assert(span_text(path)[6 + k] == path[k]);
        }
    }
}

proof fn lemma_path_run(t: Seq<char>, start: int, path: Seq<char>, k: int)
    requires
        0 <= start,
        0 <= k <= path.len(),
        start + path.len() < t.len(),
        forall|m: int| 0 <= m < path.len() ==> t[start + m] == #[trigger] span_text(path)[6 + m],
        forall|m: int| 0 <= m < path.len() ==> is_path_char(#[trigger] path[m]),
        t[start + path.len()] == '$',
    ensures
        path_end(t, start + k) == start + path.len(),
    decreases path.len() - k,
{
    if k < path.len() {
        assert(span_text(path)[6 + k] == path[k]);
        assert(is_path_char(path[k]));
        lemma_path_run(t, start, path, k + 1);
    }
}

/// Text without a `$` is kept as it stands.
proof fn lemma_kept(t: Seq<char>, from: int, to: int, body: Seq<char>)
    requires
        0 <= from <= to <= t.len(),
        forall|k: int| from <= k < to ==> #[trigger] t[k] != '$',
    ensures
        resolved_from(t, from, body) == t.subrange(from, to) + resolved_from(t, to, body),
    decreases to - from,
{
    if from < to {
        assert(t[from] != '$');
        assert(span_close(t, from) < 0);
        lemma_kept(t, from + 1, to, body);
        assert(seq![t[from]] + t.subrange(from + 1, to) == t.subrange(from, to));
        assert(seq![t[from]] + (t.subrange(from + 1, to) + resolved_from(t, to, body))
            == t.subrange(from, to) + resolved_from(t, to, body));
    } else {
        assert(t.subrange(from, to) == Seq::<char>::empty());
        assert(Seq::<char>::empty() + resolved_from(t, to, body) == resolved_from(t, to, body));
    }
}

/// A template without a span renders as itself, whatever the body holds, JSON
/// or not.
pub proof fn lemma_no_span_unchanged(t: Seq<char>, body: Seq<char>)
    requires
        no_span(t),
    ensures
        resolved(t, body) == t,
{
    lemma_no_span_from(t, 0, body);
    assert(t.subrange(0, t.len() as int) == t);
}

proof fn lemma_no_span_from(t: Seq<char>, i: int, body: Seq<char>)
    requires
        no_span(t),
        0 <= i <= t.len(),
    ensures
        resolved_from(t, i, body) == t.subrange(i, t.len() as int),
    decreases t.len() - i,
{
    if i < t.len() {
        assert(span_close(t, i) < 0);
        lemma_no_span_from(t, i + 1, body);
        assert(seq![t[i]] + t.subrange(i + 1, t.len() as int) == t.subrange(i, t.len() as int));
    } else {
        assert(t.subrange(i, t.len() as int) == Seq::<char>::empty());
    }
}

/// The text of `s` without the pair of double quotes around it.
fn strip_quotes(s: &str) -> (out: Vec<char>)
    ensures
        out@ == unquoted(s@),
{
    let chars = chars_of(s);
    let n: usize = chars.len();
    if n >= 2 && chars[0] == '"' && chars[n - 1] == '"' {
        let mut out: Vec<char> = Vec::new();
        let mut k: usize = 1;
        while k < n - 1
            invariant
                n == chars.len(),
                n >= 2,
                1 <= k <= n - 1,
                out@ == chars@.subrange(1, k as int),
            decreases n - k,
        {
            out.push(chars[k]);
            k += 1;
        }
        out
    } else {
        chars
    }
}

/// The text that stands for what a query found: the first match, without the
/// quotes of a JSON string, or the empty text where nothing was found.
pub fn first_match(found: &Option<Vec<String>>) -> (text: String)
    ensures
        text@ == match_text(found.deep_view()),
{
    let out = first_match_chars(found);
    string_of(&out)
}

fn first_match_chars(found: &Option<Vec<String>>) -> (text: Vec<char>)
    ensures
        text@ == match_text(found.deep_view()),
{
    match found {
        Some(matches) => {
            if matches.len() > 0 {
                assert(matches.deep_view()[0] == matches@[0]@);
                strip_quotes(matches[0].as_str())
            } else {
                Vec::new()
            }
        },
        None => Vec::new(),
    }
}

/// Whether the query engine answers a path for every document: whether it
/// is short enough and holds no filter and no step of zero in a slice.
pub fn is_plain_path(path: &Vec<char>) -> (plain: bool)
    ensures
        plain == plain_path(path@),
{
    if path.len() > MAX_PATH_LEN {
        return false;
    }
    let mut pending = false;
    let mut k: usize = 0;
    while k < path.len()
        invariant
            k <= path.len(),
            path.len() <= MAX_PATH_LEN,
            pending == colon_pending(path@, k as int),
            forall|m: int| 0 <= m < k ==> #[trigger] path@[m] != '?',
            forall|m: int|
                0 <= m < k && #[trigger] path@[m] == ':' && colon_pending(path@, m) ==> m + 1
                    < path.len() && is_nonzero_digit(path@[m + 1]),
        decreases path.len() - k,
    {
        let c = path[k];
        if c == '?' {
            return false;
        }
        if c == ':' && pending {
            if path.len() - k < 2 || path[k + 1] < '1' || path[k + 1] > '9' {
                return false;
            }
        }
        if c == ':' {
            pending = true;
        } else if c == ']' {
            pending = false;
        }
        k += 1;
    }
    true
}

/// What a path finds in a body, if it finds something.
fn lookup(path: &Vec<char>, body: &str) -> (text: Option<Vec<char>>)
    ensures
        text is Some <==> path_finds(path@, body@),
        text is Some ==> text->0@ == path_value(path@, body@),
{
    if !is_plain_path(path) {
        return None;
    }
    let mut query: Vec<char> = Vec::new();
    query.push('$');
    query.push('.');
    push_chars(&mut query, path);
    assert(query@ == query_of(path@));
    let text = string_of(&query);
    let found = select_matches(body, text.as_str());
    match &found {
        Some(matches) => {
            if matches.len() > 0 {
                Some(first_match_chars(&found))
            } else {
                None
            }
        },
        None => None,
    }
}

/// What the path `path` finds in `json`: the first value that the query
/// `$.<path>` selects, as JSON text and without the quotes of a string. Empty
/// where `json` is no JSON document, where the path selects nothing, and where
/// the path is not plain.
pub fn evaluate_json_path(json: &str, path: &str) -> (text: String)
    ensures
        text@ == path_value(path@, json@),
{
    let chars = chars_of(path);
    match lookup(&chars, json) {
        Some(out) => string_of(&out),
        None => String::new(),
    }
}

fn opens_here(t: &Vec<char>, i: usize) -> (b: bool)
    requires
        i < t.len(),
    ensures
        b == opens_at(t@, i as int),
{
    t.len() - i >= 6 && t[i] == '$' && t[i + 1] == 'j' && t[i + 2] == 's' && t[i + 3] == 'o' && t[i
        + 4] == 'n' && t[i + 5] == ':'
}

/// Where the span that opens at `i` closes, if one opens there.
fn close_of(t: &Vec<char>, i: usize) -> (close: Option<usize>)
    requires
        i < t.len(),
    ensures
        match close {
            Some(k) => k == span_close(t@, i as int),
            None => span_close(t@, i as int) < 0,
        },
{
    if !opens_here(t, i) {
        return None;
    }
    let start: usize = i + 6;
    let mut end: usize = start;
    while end < t.len() && t[end] != '{' && t[end] != '}' && t[end] != '$'
        invariant
            start <= end <= t.len(),
            path_end(t@, start as int) == path_end(t@, end as int),
        decreases t.len() - end,
    {
        end += 1;
    }
    if end > start && end < t.len() && t[end] == '$' {
        Some(end)
    } else {
        None
    }
}

/// The path of the span that opens at `i` and closes at `close`.
fn path_of(t: &Vec<char>, i: usize, close: usize) -> (path: Vec<char>)
    requires
        i + 6 <= close < t.len(),
    ensures
        path@ == span_path(t@, i as int, close as int),
{
    let mut path: Vec<char> = Vec::new();
    let mut k: usize = i + 6;
    while k < close
        invariant
            i + 6 <= k <= close,
            close < t.len(),
            path@ == t@.subrange(i + 6, k as int),
        decreases close - k,
    {
        path.push(t[k]);
        k += 1;
    }
    path
}

fn render_chars(t: &Vec<char>, body: &str) -> (out: Vec<char>)
    ensures
        out@ == resolved(t@, body@),
{
    let mut out: Vec<char> = Vec::new();
    let mut i: usize = 0;
    while i < t.len()
        invariant
            i <= t.len(),
            resolved(t@, body@) == out@ + resolved_from(t@, i as int, body@),
        decreases t.len() - i,
    {
        let ghost before = out@;
        let ghost rest = resolved_from(t@, i as int, body@);
        match close_of(t, i) {
            Some(close) => {
                proof {
                    lemma_span_close(t@, i as int);
                }
                let path = path_of(t, i, close);
                match lookup(&path, body) {
                    Some(value) => {
                        push_chars(&mut out, &value);
                    },
                    None => {},
                }
                i = close + 1;
                assert(before + rest =~= out@ + resolved_from(t@, i as int, body@));
            },
            None => {
                out.push(t[i]);
                i += 1;
                assert(before + rest =~= out@ + resolved_from(t@, i as int, body@));
            },
        }
    }
    assert(out@ + Seq::<char>::empty() =~= out@);
    out
}

/// The paths of the spans of a template that find nothing in the body of a
/// reply, in their order: those that `parse_custom_syntax` replaces by
/// nothing.
pub fn unresolved_spans(input: &str, json_response: &str) -> (paths: Vec<String>)
    ensures
        paths.deep_view() == unresolved(input@, json_response@),
{
    let t = chars_of(input);
    let mut paths: Vec<String> = Vec::new();
    let mut i: usize = 0;
    assert(paths.deep_view() =~= Seq::empty());
    while i < t.len()
        invariant
            i <= t.len(),
            t@ == input@,
            unresolved(t@, json_response@) == paths.deep_view() + unresolved_from(
                t@,
                i as int,
                json_response@,
            ),
        decreases t.len() - i,
    {
        let ghost before = paths.deep_view();
        let ghost rest = unresolved_from(t@, i as int, json_response@);
        match close_of(&t, i) {
            Some(close) => {
                proof {
                    lemma_span_close(t@, i as int);
                }
                let path = path_of(&t, i, close);
                match lookup(&path, json_response) {
                    Some(_) => {},
                    None => {
                        paths.push(string_of(&path));
                        assert(paths.deep_view() =~= before.push(path@));
                    },
                }
                i = close + 1;
                assert(before + rest =~= paths.deep_view() + unresolved_from(
                    t@,
                    i as int,
                    json_response@,
                ));
            },
            None => {
                i += 1;
            },
        }
    }
    assert(paths.deep_view() + Seq::<Seq<char>>::empty() =~= paths.deep_view());
    paths
}

/// Renders a template against the body of a reply. Each span is replaced by
/// what its path finds in the body; a span whose path finds nothing, because
/// the body is no JSON or holds no such value, is replaced by nothing, and
/// `unresolved_spans` names it. The body is read only where a span asks for
/// it.
pub fn parse_custom_syntax(input: &str, json_response: &str) -> (text: String)
    ensures
        text@ == resolved(input@, json_response@),
        no_span(input@) ==> text@ == input@,
{
    let t = chars_of(input);
    let out = render_chars(&t, json_response);
    proof {
        if no_span(input@) {
            lemma_no_span_unchanged(input@, json_response@);
        }
    }
    string_of(&out)
}

} // verus!
