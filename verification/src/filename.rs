//! The filename template engine.
//!
//! A pattern is rendered in two passes. The first replaces the date, time and
//! counter tokens, reading the pattern once from left to right; what it puts in
//! is never read again as a pattern. The second pass reads the result of the
//! first and replaces every `%r<N>` by `N` fresh random letters.

use vstd::prelude::*;
use crate::config::Config;
use crate::text::{
    chars_of, decimal, digit_value, is_digit, lemma_decimal_digits, padded, push_decimal,
    push_padded, string_of, zeros,
};

verus! {

/// A reading of the UTC wall clock, to the second.
#[derive(Clone, Copy, Debug, PartialEq, Eq)]
pub struct Clock {
    pub year: i32,
    pub month: u8,
    pub day: u8,
    pub hour: u8,
    pub minute: u8,
    pub second: u8,
}

impl Clock {
    /// The fields are those of a calendar date and a time of day.
    pub open spec fn valid(&self) -> bool {
        &&& 1 <= self.month <= 12
        &&& 1 <= self.day <= 31
        &&& self.hour <= 23
        &&& self.minute <= 59
        &&& self.second <= 59
    }

    /// A clock reading from its fields, if they are those of a date and a time.
    pub fn new(year: i32, month: u8, day: u8, hour: u8, minute: u8, second: u8) -> (clock: Option<
        Clock,
    >)
        ensures
            clock is Some <==> (Clock { year, month, day, hour, minute, second }).valid(),
            clock is Some ==> clock->0 == (Clock { year, month, day, hour, minute, second }),
    {
        if 1 <= month && month <= 12 && 1 <= day && day <= 31 && hour <= 23 && minute <= 59
            && second <= 59 {
            Some(Clock { year, month, day, hour, minute, second })
        } else {
            None
        }
    }
}

/// Reads the system clock with `std::time::SystemTime::now`, has chrono
/// convert the reading to UTC (`DateTime::<Utc>::from`), and copies the six
/// calendar fields. chrono documents the month as 1 to 12, the day as 1 to 31,
/// the hour as 0 to 23, minute and second as 0 to 59. Of the year nothing is
/// promised: a clock may stand before the year 1.
#[verifier::external_body]
fn utc_now() -> (clock: Clock)
    ensures
        clock.valid(),
{
    let now = chrono::DateTime::<chrono::Utc>::from(std::time::SystemTime::now());
    Clock {
        year: chrono::Datelike::year(&now),
        month: chrono::Datelike::month(&now) as u8,
        day: chrono::Datelike::day(&now) as u8,
        hour: chrono::Timelike::hour(&now) as u8,
        minute: chrono::Timelike::minute(&now) as u8,
        second: chrono::Timelike::second(&now) as u8,
    }
}

/// Draws a number below `bound` from the thread's generator, with
/// `rand::Rng::gen_range` on the range `0..bound`. The range must not be
/// empty; the result lies in it.
#[verifier::external_body]
fn random_below(bound: usize) -> (n: usize)
    requires
        bound > 0,
    ensures
        n < bound,
{
    rand::Rng::gen_range(&mut rand::thread_rng(), 0..bound)
}

/// The tokens of the first pass.
#[derive(Clone, Copy, Debug, PartialEq, Eq)]
pub enum Token {
    Year,
    Month,
    Day,
    Hour,
    Minute,
    Second,
    Timestamp,
    Time,
    Random,
    Index,
}

/// The token that starts at position `i` of `p`, if one does. Where two
/// tokens could start there the longer one is meant: `%mo` before `%m`, `%ts`
/// before `%t`.
pub open spec fn token_at(p: Seq<char>, i: int) -> Option<Token> {
    if 0 <= i && i + 1 < p.len() && p[i] == '%' {
        let c = p[i + 1];
        let then_is = |d: char| i + 2 < p.len() && p[i + 2] == d;
        if c == 'y' {
            Some(Token::Year)
        } else if c == 'm' {
            if then_is('o') {
                Some(Token::Month)
            } else {
                Some(Token::Minute)
            }
        } else if c == 'd' {
            Some(Token::Day)
        } else if c == 'h' {
            Some(Token::Hour)
        } else if c == 's' {
            Some(Token::Second)
        } else if c == 't' {
            if then_is('s') {
                Some(Token::Timestamp)
            } else {
                Some(Token::Time)
            }
        } else if c == 'r' {
            Some(Token::Random)
        } else if c == 'i' {
            Some(Token::Index)
        } else {
            None
        }
    } else {
        None
    }
}

/// The number of pattern characters that a token takes.
pub open spec fn token_len(t: Token) -> int {
    match t {
        Token::Month | Token::Timestamp => 3,
        _ => 2,
    }
}

/// The year in four characters at least: zeros in front of a short year, and
/// for a year before the year 0 a minus sign in front of the zeros.
pub open spec fn year_text(year: int) -> Seq<char> {
    if year >= 0 {
        padded(year as nat, 4)
    } else {
        seq!['-'] + padded((-year) as nat, 3)
    }
}

/// `YYYY-MM-DD`.
pub open spec fn date_text(clock: Clock) -> Seq<char> {
    year_text(clock.year as int) + seq!['-'] + padded(clock.month as nat, 2) + seq!['-'] + padded(
        clock.day as nat,
        2,
    )
}

/// `HH-MM-SS`.
pub open spec fn time_text(clock: Clock) -> Seq<char> {
    padded(clock.hour as nat, 2) + seq!['-'] + padded(clock.minute as nat, 2) + seq!['-'] + padded(
        clock.second as nat,
        2,
    )
}

/// What the first pass puts in place of a token. The random token stays as it
/// is written, for the second pass.
pub open spec fn token_text(t: Token, counter: nat, clock: Clock) -> Seq<char> {
    match t {
        Token::Year => year_text(clock.year as int),
        Token::Month => padded(clock.month as nat, 2),
        Token::Day => padded(clock.day as nat, 2),
        Token::Hour => padded(clock.hour as nat, 2),
        Token::Minute => padded(clock.minute as nat, 2),
        Token::Second => padded(clock.second as nat, 2),
        Token::Timestamp => date_text(clock) + seq!['_'] + time_text(clock),
        Token::Time => time_text(clock),
        Token::Random => seq!['%', 'r'],
        Token::Index => decimal(counter),
    }
}

/// The first pass on the part of `p` from position `i` on.
pub open spec fn dated_from(p: Seq<char>, i: int, counter: nat, clock: Clock) -> Seq<char>
    decreases p.len() - i,
{
    if i < 0 || i >= p.len() {
        Seq::empty()
    } else {
        match token_at(p, i) {
            Some(t) => token_text(t, counter, clock) + dated_from(
                p,
                i + token_len(t),
                counter,
                clock,
            ),
            None => seq![p[i]] + dated_from(p, i + 1, counter, clock),
        }
    }
}

/// The first pass: every date, time and counter token of `p` replaced, all
/// other text kept.
pub open spec fn dated(p: Seq<char>, counter: nat, clock: Clock) -> Seq<char> {
    dated_from(p, 0, counter, clock)
}

/// A letter of the alphabet that random text is drawn from: `A` to `Z` and
/// `a` to `z`.
pub open spec fn is_letter(c: char) -> bool {
    ('A' <= c && c <= 'Z') || ('a' <= c && c <= 'z')
}

/// Every character of `s` is a letter of the alphabet.
pub open spec fn all_letters(s: Seq<char>) -> bool {
    forall|k: int| 0 <= k < s.len() ==> is_letter(#[trigger] s[k])
}

/// A random token starts at position `i` of `t`: `%r` and at least one digit.
pub open spec fn random_at(t: Seq<char>, i: int) -> bool {
    0 <= i && i + 2 < t.len() && t[i] == '%' && t[i + 1] == 'r' && is_digit(t[i + 2])
}

/// The end of the run of digits that starts at position `i` of `t`.
pub open spec fn digits_end(t: Seq<char>, i: int) -> int
    decreases t.len() - i,
{
    if 0 <= i < t.len() && is_digit(t[i]) {
        digits_end(t, i + 1)
    } else {
        i
    }
}

/// The number that the digits of `t` from `from` up to `to` spell.
pub open spec fn digits_value(t: Seq<char>, from: int, to: int) -> nat
    decreases to - from,
{
    if from >= to {
        0
    } else {
        (10 * digits_value(t, from, to - 1) + digit_value(t[to - 1])) as nat
    }
}

/// The length that the random token at position `i` of `t` asks for: the
/// number after `%r`, or nothing at all where that number does not fit the
/// machine's word.
pub open spec fn random_len(t: Seq<char>, i: int) -> nat {
    let n = digits_value(t, i + 2, digits_end(t, i + 2));
    if n <= usize::MAX {
        n
    } else {
        0
    }
}

/// `out` from position `j` on is the part of `t` from position `i` on with
/// each random token replaced by letters of the alphabet, as many as the token
/// asks for, and every other character kept.
pub open spec fn fills_from(t: Seq<char>, i: int, out: Seq<char>, j: int) -> bool
    decreases t.len() - i,
    via fills_from_decreases
{
    if i < 0 || i >= t.len() {
        j == out.len()
    } else if random_at(t, i) {
        let n = random_len(t, i);
        &&& 0 <= j
        &&& j + n <= out.len()
        &&& all_letters(out.subrange(j, j + n))
        &&& fills_from(t, digits_end(t, i + 2), out, j + n)
    } else {
        &&& 0 <= j < out.len()
        &&& out[j] == t[i]
        &&& fills_from(t, i + 1, out, j + 1)
    }
}

#[via_fn]
proof fn fills_from_decreases(t: Seq<char>, i: int, out: Seq<char>, j: int) {
    if random_at(t, i) {
        lemma_digits_end(t, i + 2);
    }
}

/// The second pass: `out` is `t` with each random token replaced by fresh
/// letters.
pub open spec fn fills(t: Seq<char>, out: Seq<char>) -> bool {
    fills_from(t, 0, out, 0)
}

/// No random token starts anywhere in `t`.
pub open spec fn no_random(t: Seq<char>) -> bool {
    forall|i: int| !random_at(t, i)
}

/// A run of digits ends at or after its start, inside the text.
pub proof fn lemma_digits_end(t: Seq<char>, i: int)
    requires
        0 <= i <= t.len(),
    ensures
        i <= digits_end(t, i) <= t.len(),
        forall|k: int| i <= k < digits_end(t, i) ==> is_digit(#[trigger] t[k]),
        digits_end(t, i) < t.len() ==> !is_digit(t[digits_end(t, i)]),
    decreases t.len() - i,
{
    if i < t.len() && is_digit(t[i]) {
        lemma_digits_end(t, i + 1);
    }
}

/// Without a random token the second pass changes nothing: whatever it
/// returns is the text it was given.
pub proof fn lemma_fills_without_random(t: Seq<char>, out: Seq<char>)
    requires
        no_random(t),
        fills(t, out),
    ensures
        out == t,
{
    lemma_fills_copy(t, 0, out, 0);
    assert(out =~= t);
}

proof fn lemma_fills_copy(t: Seq<char>, i: int, out: Seq<char>, j: int)
    requires
        no_random(t),
        0 <= i <= t.len(),
        fills_from(t, i, out, j),
    ensures
        out.len() - j == t.len() - i,
        forall|m: int| j <= m < out.len() ==> #[trigger] out[m] == t[m - j + i],
    decreases t.len() - i,
{
    if i < t.len() {
        assert(!random_at(t, i));
        lemma_fills_copy(t, i + 1, out, j + 1);
    }
}

/// Only the random token is left in `s`: no date, time or counter token starts
/// anywhere in it.
pub open spec fn settled(s: Seq<char>) -> bool {
    forall|j: int| #[trigger] token_at(s, j) is None || token_at(s, j) == Some(Token::Random)
}

/// The first pass is idempotent: what it gives holds no date, time or counter
/// token any more, and a second run over it, at any reading of the clock and
/// with any counter, changes nothing.
pub proof fn lemma_dated_idempotent(
    p: Seq<char>,
    counter: nat,
    clock: Clock,
    later_counter: nat,
    later_clock: Clock,
)
    ensures
        settled(dated(p, counter, clock)),
        dated(dated(p, counter, clock), later_counter, later_clock) == dated(p, counter, clock),
{
    lemma_dated_settles(p, 0, counter, clock);
    let out = dated(p, counter, clock);
    lemma_settled_is_kept(out, 0, later_counter, later_clock);
    assert(out.subrange(0, out.len() as int) == out);
}

proof fn lemma_settled_is_kept(s: Seq<char>, i: int, counter: nat, clock: Clock)
    requires
        settled(s),
        0 <= i <= s.len(),
    ensures
        dated_from(s, i, counter, clock) == s.subrange(i, s.len() as int),
    decreases s.len() - i,
{
    if i < s.len() {
        assert(token_at(s, i) is None || token_at(s, i) == Some(Token::Random));
        if token_at(s, i) is None {
            lemma_settled_is_kept(s, i + 1, counter, clock);
            assert(seq![s[i]] + s.subrange(i + 1, s.len() as int) == s.subrange(
                i,
                s.len() as int,
            ));
        } else {
            lemma_settled_is_kept(s, i + 2, counter, clock);
            assert(seq!['%', 'r'] + s.subrange(i + 2, s.len() as int) == s.subrange(
                i,
                s.len() as int,
            ));
        }
    } else {
        assert(s.subrange(i, s.len() as int) == Seq::<char>::empty());
    }
}

/// Digits, `-` and `_` only.
spec fn quiet(s: Seq<char>) -> bool {
    forall|k: int| 0 <= k < s.len() ==> {
        let c = #[trigger] s[k];
        is_digit(c) || c == '-' || c == '_'
    }
}

proof fn lemma_quiet_joined(a: Seq<char>, b: Seq<char>)
    requires
        quiet(a),
        quiet(b),
    ensures
        quiet(a + b),
{
    assert forall|k: int| 0 <= k < (a + b).len() implies {
        let c = #[trigger] (a + b)[k];
        is_digit(c) || c == '-' || c == '_'
    } by {
        if k < a.len() {
            assert((a + b)[k] == a[k]);
        } else {
            assert((a + b)[k] == b[k - a.len()]);
        }
    }
}

proof fn lemma_padded_quiet(n: nat, width: nat)
    ensures
        padded(n, width).len() > 0,
        is_digit(padded(n, width)[0]),
        quiet(padded(n, width)),
{
    lemma_decimal_digits(n);
    let d = decimal(n);
    if d.len() < width {
        let z = zeros((width - d.len()) as nat);
        assert forall|k: int| 0 <= k < (z + d).len() implies is_digit(#[trigger] (z + d)[k]) by {
            if k < z.len() {
                assert((z + d)[k] == z[k]);
            } else {
                assert((z + d)[k] == d[k - z.len()]);
            }
        }
    }
}

proof fn lemma_year_quiet(year: int)
    ensures
        year_text(year).len() > 0,
        quiet(year_text(year)),
{
    if year >= 0 {
        lemma_padded_quiet(year as nat, 4);
    } else {
        let dash = seq!['-'];
        assert(quiet(dash));
        lemma_padded_quiet((-year) as nat, 3);
        lemma_quiet_joined(dash, padded((-year) as nat, 3));
    }
}

proof fn lemma_clock_texts_quiet(clock: Clock)
    ensures
        quiet(date_text(clock)),
        quiet(time_text(clock)),
        date_text(clock).len() > 0,
        time_text(clock).len() > 0,
{
    let dash = seq!['-'];
    assert(quiet(dash));
    lemma_year_quiet(clock.year as int);
    lemma_padded_quiet(clock.month as nat, 2);
    lemma_padded_quiet(clock.day as nat, 2);
    lemma_padded_quiet(clock.hour as nat, 2);
    lemma_padded_quiet(clock.minute as nat, 2);
    lemma_padded_quiet(clock.second as nat, 2);
    let y = year_text(clock.year as int);
    let mo = padded(clock.month as nat, 2);
    let d = padded(clock.day as nat, 2);
    lemma_quiet_joined(y, dash);
    lemma_quiet_joined(y + dash, mo);
    lemma_quiet_joined(y + dash + mo, dash);
    lemma_quiet_joined(y + dash + mo + dash, d);
    let h = padded(clock.hour as nat, 2);
    let m = padded(clock.minute as nat, 2);
    let sec = padded(clock.second as nat, 2);
    lemma_quiet_joined(h, dash);
    lemma_quiet_joined(h + dash, m);
    lemma_quiet_joined(h + dash + m, dash);
    lemma_quiet_joined(h + dash + m + dash, sec);
}

/// The text that stands for a token is not empty. But for the random token
/// it holds digits, `-` and `_` only.
proof fn lemma_token_text(t: Token, counter: nat, clock: Clock)
    ensures
        token_text(t, counter, clock).len() > 0,
        t != Token::Random ==> quiet(token_text(t, counter, clock)),
{
    lemma_clock_texts_quiet(clock);
    match t {
        Token::Year => lemma_year_quiet(clock.year as int),
        Token::Month => lemma_padded_quiet(clock.month as nat, 2),
        Token::Day => lemma_padded_quiet(clock.day as nat, 2),
        Token::Hour => lemma_padded_quiet(clock.hour as nat, 2),
        Token::Minute => lemma_padded_quiet(clock.minute as nat, 2),
        Token::Second => lemma_padded_quiet(clock.second as nat, 2),
        Token::Timestamp => {
            let under = seq!['_'];
            assert(quiet(under));
            lemma_quiet_joined(date_text(clock), under);
            lemma_quiet_joined(date_text(clock) + under, time_text(clock));
        },
        Token::Time => {},
        Token::Random => {},
        Token::Index => lemma_decimal_digits(counter),
    }
}

/// A token in the second of two joined texts is a token of the joined text,
/// and the other way round.
proof fn lemma_token_shift(a: Seq<char>, b: Seq<char>, j: int)
    requires
        j >= a.len(),
    ensures
        token_at(a + b, j) == token_at(b, j - a.len()),
{
    let ab = a + b;
    let k: int = j - a.len();
    if k + 1 < b.len() {
        assert(ab[j] == b[k]);
        assert(ab[j + 1] == b[k + 1]);
        if k + 2 < b.len() {
            assert(ab[j + 2] == b[k + 2]);
        }
    }
}

proof fn lemma_dated_settles(p: Seq<char>, i: int, counter: nat, clock: Clock)
    requires
        0 <= i <= p.len(),
    ensures
        settled(dated_from(p, i, counter, clock)),
        i < p.len() ==> dated_from(p, i, counter, clock).len() > 0,
        i < p.len() ==> {
            let first = dated_from(p, i, counter, clock)[0];
            (token_at(p, i) is None && first == p[i]) || is_digit(first) || first == '-'
                || first == '_' || first == '%'
        },
    decreases p.len() - i,
{
    let out = dated_from(p, i, counter, clock);
    if i >= p.len() {
        assert forall|j: int| #[trigger] token_at(out, j) is None by {}
    } else {
        match token_at(p, i) {
            Some(t) => {
                let piece = token_text(t, counter, clock);
                let rest = dated_from(p, i + token_len(t), counter, clock);
                lemma_token_text(t, counter, clock);
                lemma_dated_settles(p, i + token_len(t), counter, clock);
                assert(out == piece + rest);
                assert(out[0] == piece[0]);
                assert forall|j: int| #[trigger]
                    token_at(out, j) is None || token_at(out, j) == Some(Token::Random) by {
                    if j >= piece.len() {
                        lemma_token_shift(piece, rest, j);
                        assert(token_at(rest, j - piece.len()) is None || token_at(
                            rest,
                            j - piece.len(),
                        ) == Some(Token::Random));
                    } else if 0 <= j {
                        assert(out[j] == piece[j]);
                        if t == Token::Random {
                            if j == 0 {
                                assert(out[1] == piece[1]);
                            }
                        } else {
                            assert(is_digit(piece[j]) || piece[j] == '-' || piece[j] == '_');
                        }
                    }
                }
            },
            None => {
                let rest = dated_from(p, i + 1, counter, clock);
                lemma_dated_settles(p, i + 1, counter, clock);
                assert(out == seq![p[i]] + rest);
                assert(out[0] == p[i]);
                assert forall|j: int| #[trigger]
                    token_at(out, j) is None || token_at(out, j) == Some(Token::Random) by {
                    if j >= 1 {
                        lemma_token_shift(seq![p[i]], rest, j);
                        assert(token_at(rest, j - 1) is None || token_at(rest, j - 1) == Some(
                            Token::Random,
                        ));
                    } else if j == 0 && p[i] == '%' && out.len() > 1 {
                        assert(out[1] == rest[0]);
                        assert(i + 1 < p.len());
                    }
                }
            },
        }
    }
}

/// The shape that the second pass gives to a text, from position `i` on: a
/// character where the text fixes one, and nothing for each letter that a
/// random token leaves open.
pub open spec fn shape_from(t: Seq<char>, i: int) -> Seq<Option<char>>
    decreases t.len() - i,
    via shape_from_decreases
{
    if i < 0 || i >= t.len() {
        Seq::empty()
    } else if random_at(t, i) {
        Seq::new(random_len(t, i), |k: int| None::<char>) + shape_from(t, digits_end(t, i + 2))
    } else {
        seq![Some(t[i])] + shape_from(t, i + 1)
    }
}

#[via_fn]
proof fn shape_from_decreases(t: Seq<char>, i: int) {
    if random_at(t, i) {
        lemma_digits_end(t, i + 2);
    }
}

/// The shape that the second pass gives to a text.
pub open spec fn shape(t: Seq<char>) -> Seq<Option<char>> {
    shape_from(t, 0)
}

/// `out` has the shape given: the same length, the fixed characters where the
/// shape fixes them, and letters of the alphabet where it leaves them open.
pub open spec fn fits(shape: Seq<Option<char>>, out: Seq<char>) -> bool {
    &&& out.len() == shape.len()
    &&& forall|j: int|
        0 <= j < out.len() ==> match #[trigger] shape[j] {
            Some(c) => out[j] == c,
            None => is_letter(out[j]),
        }
}

/// The second pass gives a text exactly the results that have its shape:
/// every random token yields as many letters as it asks for, all of the
/// alphabet, and nothing else changes.
pub proof fn lemma_fills_is_shape(t: Seq<char>, out: Seq<char>)
    ensures
        fills(t, out) <==> fits(shape(t), out),
{
    lemma_fills_is_shape_from(t, 0, out, 0);
    assert(out.subrange(0, out.len() as int) == out);
}

proof fn lemma_fills_is_shape_from(t: Seq<char>, i: int, out: Seq<char>, j: int)
    requires
        0 <= i <= t.len(),
        0 <= j <= out.len(),
    ensures
        fills_from(t, i, out, j) <==> fits(shape_from(t, i), out.subrange(j, out.len() as int)),
    decreases t.len() - i,
{
    let rest = out.subrange(j, out.len() as int);
    let sh = shape_from(t, i);
    if i >= t.len() {
    } else if random_at(t, i) {
        let n = random_len(t, i);
        let e = digits_end(t, i + 2);
        lemma_digits_end(t, i + 2);
        let open = Seq::new(n, |k: int| None::<char>);
        let tail = shape_from(t, e);
        if j + n <= out.len() {
            lemma_fills_is_shape_from(t, e, out, j + n);
            let after = out.subrange(j + n, out.len() as int);
            if fills_from(t, i, out, j) {
                assert(fits(tail, after));
                assert forall|k: int| 0 <= k < rest.len() implies match #[trigger] sh[k] {
                    Some(c) => rest[k] == c,
                    None => is_letter(rest[k]),
                } by {
                    if k < n {
                        assert(sh[k] == open[k]);
                        assert(rest[k] == out.subrange(j, j + n)[k]);
                    } else {
                        assert(sh[k] == tail[k - n]);
                        assert(rest[k] == after[k - n]);
                    }
                }
            }
            if fits(sh, rest) {
                assert forall|k: int| 0 <= k < n implies is_letter(
                    #[trigger] out.subrange(j, j + n)[k],
                ) by {
                    assert(sh[k] == open[k]);
                    assert(rest[k] == out.subrange(j, j + n)[k]);
                }
                assert forall|k: int| 0 <= k < after.len() implies match #[trigger] tail[k] {
                    Some(c) => after[k] == c,
                    None => is_letter(after[k]),
                } by {
                    assert(sh[k + n] == tail[k]);
                    assert(rest[k + n] == after[k]);
                }
                assert(fits(tail, after));
            }
        }
    } else {
        let tail = shape_from(t, i + 1);
        if j < out.len() {
            lemma_fills_is_shape_from(t, i + 1, out, j + 1);
            let after = out.subrange(j + 1, out.len() as int);
            if fills_from(t, i, out, j) {
                assert forall|k: int| 0 <= k < rest.len() implies match #[trigger] sh[k] {
                    Some(c) => rest[k] == c,
                    None => is_letter(rest[k]),
                } by {
                    if k > 0 {
                        assert(sh[k] == tail[k - 1]);
                        assert(rest[k] == after[k - 1]);
                    }
                }
            }
            if fits(sh, rest) {
                assert(sh[0] == Some(t[i]));
                assert(rest[0] == out[j]);
                assert forall|k: int| 0 <= k < after.len() implies match #[trigger] tail[k] {
                    Some(c) => after[k] == c,
                    None => is_letter(after[k]),
                } by {
                    assert(sh[k + 1] == tail[k]);
                    assert(rest[k + 1] == after[k]);
                }
                assert(fits(tail, after));
            }
        }
    }
}

/// Two results of the second pass on one text differ in the random letters
/// at most: they are equally long and agree wherever the text fixes a
/// character.
pub proof fn lemma_renderings_agree(t: Seq<char>, first: Seq<char>, second: Seq<char>)
    requires
        fills(t, first),
        fills(t, second),
    ensures
        first.len() == second.len(),
        forall|j: int| 0 <= j < first.len() && #[trigger] shape(t)[j] is Some ==> first[j] == second[j],
{
    lemma_fills_is_shape(t, first);
    lemma_fills_is_shape(t, second);
}

/// A pattern without a percent sign holds no token.
pub open spec fn no_percent(p: Seq<char>) -> bool {
    forall|i: int| 0 <= i < p.len() ==> #[trigger] p[i] != '%'
}

/// A pattern without a percent sign renders as itself, at any reading of the
/// clock and with any counter.
pub proof fn lemma_plain_pattern(p: Seq<char>, counter: nat, clock: Clock, name: Seq<char>)
    requires
        no_percent(p),
        fills(dated(p, counter, clock), name),
    ensures
        dated(p, counter, clock) == p,
        name == p,
{
    lemma_dated_plain(p, 0, counter, clock);
    assert(p.subrange(0, p.len() as int) == p);
    assert forall|i: int| !random_at(p, i) by {
        if 0 <= i < p.len() {
            assert(p[i] != '%');
        }
    }
    lemma_fills_without_random(p, name);
}

proof fn lemma_dated_plain(p: Seq<char>, i: int, counter: nat, clock: Clock)
    requires
        no_percent(p),
        0 <= i <= p.len(),
    ensures
        dated_from(p, i, counter, clock) == p.subrange(i, p.len() as int),
    decreases p.len() - i,
{
    if i < p.len() {
        assert(p[i] != '%');
        lemma_dated_plain(p, i + 1, counter, clock);
        assert(seq![p[i]] + p.subrange(i + 1, p.len() as int) == p.subrange(i, p.len() as int));
    } else {
        assert(p.subrange(i, p.len() as int) == Seq::<char>::empty());
    }
}

/// Rendering is repeatable but for the random tokens: two renderings of one
/// pattern with one counter and one clock reading are both fillings of the
/// same dated text, and where that text holds no random token they are equal.
pub proof fn lemma_render_repeatable(
    pattern: Seq<char>,
    counter: nat,
    clock: Clock,
    first: Seq<char>,
    second: Seq<char>,
)
    requires
        fills(dated(pattern, counter, clock), first),
        fills(dated(pattern, counter, clock), second),
        no_random(dated(pattern, counter, clock)),
    ensures
        first == second,
        first == dated(pattern, counter, clock),
{
    lemma_fills_without_random(dated(pattern, counter, clock), first);
    lemma_fills_without_random(dated(pattern, counter, clock), second);
}

/// The letter at a place of the alphabet `A` to `Z`, `a` to `z`.
pub open spec fn letter_at(index: int) -> char {
    if index < 26 {
        (65 + index) as char
    } else {
        (71 + index) as char
    }
}

/// The letter at a place of the alphabet: the capitals stand at the places 0
/// to 25, the small letters at 26 to 51. `None` beyond the alphabet.
pub fn letter(index: usize) -> (c: Option<char>)
    ensures
        c is Some <==> index < 52,
        c is Some ==> c->0 == letter_at(index as int) && is_letter(c->0),
{
    if index < 26 {
        Some(((65 + index) as u8) as char)
    } else if index < 52 {
        Some(((71 + index) as u8) as char)
    } else {
        None
    }
}

/// Every place of the alphabet holds a letter, and no two places hold the
/// same.
pub proof fn lemma_alphabet(i: int, j: int)
    requires
        0 <= i < 52,
        0 <= j < 52,
    ensures
        is_letter(letter_at(i)),
        i != j ==> letter_at(i) != letter_at(j),
{
}

/// `l` letters, each drawn anew from the alphabet.
pub fn generate_random_string(l: usize) -> (s: String)
    ensures
        s@.len() == l,
        all_letters(s@),
{
    let mut out: Vec<char> = Vec::new();
    push_random(&mut out, l);
    assert(out@.subrange(0, l as int) == out@);
    string_of(&out)
}

fn push_random(out: &mut Vec<char>, l: usize)
    ensures
        final(out)@.len() == old(out)@.len() + l,
        final(out)@.take(old(out)@.len() as int) == old(out)@,
        all_letters(final(out)@.subrange(old(out)@.len() as int, old(out)@.len() + l)),
{
    let ghost start = out@.len() as int;
    let mut k: usize = 0;
    while k < l
        invariant
            k <= l,
            start == old(out)@.len(),
            out@.len() == start + k,
            out@.take(start) == old(out)@,
            all_letters(out@.subrange(start, start + k)),
        decreases l - k,
    {
        let ghost before = out@;
        match letter(random_below(52)) {
            Some(c) => out.push(c),
            None => {},
        }
        proof {
            assert(out@.take(start) == before.take(start));
            assert forall|m: int| 0 <= m < k + 1 implies is_letter(
                #[trigger] out@.subrange(start, start + k + 1)[m],
            ) by {
                if m < k {
                    assert(out@.subrange(start, start + k + 1)[m] == before.subrange(
                        start,
                        start + k,
                    )[m]);
                }
            }
        }
        k += 1;
    }
}

fn is_digit_char(c: char) -> (b: bool)
    ensures
        b == is_digit(c),
{
    '0' <= c && c <= '9'
}

fn token_here(p: &Vec<char>, i: usize) -> (t: Option<Token>)
    requires
        i < p.len(),
    ensures
        t == token_at(p@, i as int),
{
    if p[i] != '%' || p.len() - i < 2 {
        return None;
    }
    let c = p[i + 1];
    let third: Option<char> = if p.len() - i > 2 {
        Some(p[i + 2])
    } else {
        None
    };
    if c == 'y' {
        Some(Token::Year)
    } else if c == 'm' {
        if third == Some('o') {
            Some(Token::Month)
        } else {
            Some(Token::Minute)
        }
    } else if c == 'd' {
        Some(Token::Day)
    } else if c == 'h' {
        Some(Token::Hour)
    } else if c == 's' {
        Some(Token::Second)
    } else if c == 't' {
        if third == Some('s') {
            Some(Token::Timestamp)
        } else {
            Some(Token::Time)
        }
    } else if c == 'r' {
        Some(Token::Random)
    } else if c == 'i' {
        Some(Token::Index)
    } else {
        None
    }
}

fn push_year(out: &mut Vec<char>, year: i32)
    ensures
        final(out)@ == old(out)@ + year_text(year as int),
{
    if year >= 0 {
        push_padded(out, year as u64, 4);
    } else {
        out.push('-');
        let positive: i64 = -(year as i64);
        push_padded(out, positive as u64, 3);
        assert(out@ =~= old(out)@ + year_text(year as int));
    }
}

fn push_date(out: &mut Vec<char>, clock: &Clock)
    ensures
        final(out)@ == old(out)@ + date_text(*clock),
{
    push_year(out, clock.year);
    out.push('-');
    push_padded(out, clock.month as u64, 2);
    out.push('-');
    push_padded(out, clock.day as u64, 2);
    assert(out@ =~= old(out)@ + date_text(*clock));
}

fn push_time(out: &mut Vec<char>, clock: &Clock)
    ensures
        final(out)@ == old(out)@ + time_text(*clock),
{
    push_padded(out, clock.hour as u64, 2);
    out.push('-');
    push_padded(out, clock.minute as u64, 2);
    out.push('-');
    push_padded(out, clock.second as u64, 2);
    assert(out@ =~= old(out)@ + time_text(*clock));
}

fn push_token(out: &mut Vec<char>, t: Token, counter: u32, clock: &Clock)
    ensures
        final(out)@ == old(out)@ + token_text(t, counter as nat, *clock),
{
    match t {
        Token::Year => push_year(out, clock.year),
        Token::Month => push_padded(out, clock.month as u64, 2),
        Token::Day => push_padded(out, clock.day as u64, 2),
        Token::Hour => push_padded(out, clock.hour as u64, 2),
        Token::Minute => push_padded(out, clock.minute as u64, 2),
        Token::Second => push_padded(out, clock.second as u64, 2),
        Token::Timestamp => {
            push_date(out, clock);
            out.push('_');
            push_time(out, clock);
            assert(out@ =~= old(out)@ + token_text(t, counter as nat, *clock));
        },
        Token::Time => push_time(out, clock),
        Token::Random => {
            out.push('%');
            out.push('r');
            assert(out@ =~= old(out)@ + token_text(t, counter as nat, *clock));
        },
        Token::Index => push_decimal(out, counter as u64),
    }
}

/// The first pass on a pattern given as characters.
pub fn expand_dates(pattern: &Vec<char>, counter: u32, clock: &Clock) -> (out: Vec<char>)
    ensures
        out@ == dated(pattern@, counter as nat, *clock),
{
    let mut out: Vec<char> = Vec::new();
    let mut i: usize = 0;
    while i < pattern.len()
        invariant
            i <= pattern.len(),
            dated(pattern@, counter as nat, *clock) == out@ + dated_from(
                pattern@,
                i as int,
                counter as nat,
                *clock,
            ),
        decreases pattern.len() - i,
    {
        let ghost before = out@;
        let ghost rest = dated_from(pattern@, i as int, counter as nat, *clock);
        match token_here(pattern, i) {
            Some(t) => {
                push_token(&mut out, t, counter, clock);
                let step: usize = match t {
                    Token::Month | Token::Timestamp => 3,
                    _ => 2,
                };
                assert(step == token_len(t));
                i += step;
                assert(before + rest =~= out@ + dated_from(
                    pattern@,
                    i as int,
                    counter as nat,
                    *clock,
                ));
            },
            None => {
                out.push(pattern[i]);
                i += 1;
                assert(before + rest =~= out@ + dated_from(
                    pattern@,
                    i as int,
                    counter as nat,
                    *clock,
                ));
            },
        }
    }
    assert(out@ + Seq::<char>::empty() =~= out@);
    out
}

/// Reads the digits of `t` from position `from` on: where they end, and the
/// number they spell, or zero where that number does not fit the machine's
/// word.
fn read_number(t: &Vec<char>, from: usize) -> (r: (usize, usize))
    requires
        from <= t.len(),
    ensures
        r.0 == digits_end(t@, from as int),
        from <= r.0 <= t.len(),
        digits_value(t@, from as int, r.0 as int) <= usize::MAX ==> r.1 == digits_value(
            t@,
            from as int,
            r.0 as int,
        ),
        digits_value(t@, from as int, r.0 as int) > usize::MAX ==> r.1 == 0,
{
    let mut end: usize = from;
    let mut value: Option<usize> = Some(0);
    proof {
        lemma_digits_end(t@, from as int);
    }
    while end < t.len() && is_digit_char(t[end])
        invariant
            from <= end <= t.len(),
            digits_end(t@, from as int) == digits_end(t@, end as int),
            forall|k: int| from <= k < end ==> is_digit(#[trigger] t@[k]),
            match value {
                Some(v) => v == digits_value(t@, from as int, end as int),
                None => digits_value(t@, from as int, end as int) > usize::MAX,
            },
        decreases t.len() - end,
    {
        let d: usize = (t[end] as u32 - '0' as u32) as usize;
        assert(d == digit_value(t@[end as int]));
        value = match value {
            Some(v) => match v.checked_mul(10) {
                Some(w) => w.checked_add(d),
                None => None,
            },
            None => None,
        };
        end += 1;
    }
    match value {
        Some(v) => (end, v),
        None => (end, 0),
    }
}

/// The second pass on a text given as characters.
pub fn expand_random(template: &Vec<char>) -> (out: Vec<char>)
    ensures
        fills(template@, out@),
{
    let mut out: Vec<char> = Vec::new();
    let mut i: usize = 0;
    while i < template.len()
        invariant
            i <= template.len(),
            forall|full: Seq<char>|
                full.len() >= out@.len() && full.take(out@.len() as int) == out@
                    && #[trigger] fills_from(template@, i as int, full, out@.len() as int)
                    ==> fills(template@, full),
        decreases template.len() - i,
    {
        let ghost before = out@;
        let ghost at = i as int;
        if template.len() - i > 2 && template[i] == '%' && template[i + 1] == 'r' && is_digit_char(
            template[i + 2],
        ) {
            let (end, n): (usize, usize) = read_number(template, i + 2);
            push_random(&mut out, n);
            proof {
                lemma_digits_end(template@, at + 2);
                assert(random_at(template@, at));
                assert(n == random_len(template@, at));
                assert forall|full: Seq<char>|
                    full.len() >= out@.len() && full.take(out@.len() as int) == out@
                        && #[trigger] fills_from(
                        template@,
                        end as int,
                        full,
                        out@.len() as int,
                    ) implies fills(template@, full) by {
                    assert(full.take(before.len() as int) =~= out@.take(before.len() as int));
                    assert(out@.take(before.len() as int) =~= before);
                    assert(full.subrange(before.len() as int, before.len() + n) =~= out@.subrange(
                        before.len() as int,
                        before.len() + n,
                    ));
                    assert(fills_from(template@, at, full, before.len() as int));
                }
            }
            i = end;
        } else {
            out.push(template[i]);
            proof {
                assert(!random_at(template@, at));
                assert forall|full: Seq<char>|
                    full.len() >= out@.len() && full.take(out@.len() as int) == out@
                        && #[trigger] fills_from(
                        template@,
                        at + 1,
                        full,
                        out@.len() as int,
                    ) implies fills(template@, full) by {
                    assert(full.take(before.len() as int) =~= out@.take(before.len() as int));
                    assert(out@.take(before.len() as int) =~= before);
                    assert(full.take(out@.len() as int)[before.len() as int] == full[before.len() as int]);
                    assert(fills_from(template@, at, full, before.len() as int));
                }
            }
            i += 1;
        }
    }
    assert(out@.take(out@.len() as int) == out@);
    assert(fills_from(template@, i as int, out@, out@.len() as int));
    out
}

/// Renders a filename at a given clock reading. Without a pattern the name is
/// twelve random letters. With one, the date, time and counter tokens are
/// replaced first, and the random tokens of what comes of that second.
pub fn render_filename(pattern: Option<&str>, counter: u32, clock: &Clock) -> (name: String)
    ensures
        match pattern {
            None => name@.len() == 12 && all_letters(name@),
            Some(p) => fills(dated(p@, counter as nat, *clock), name@),
        },
{
    match pattern {
        None => generate_random_string(12),
        Some(p) => {
            let chars = chars_of(p);
            let dated = expand_dates(&chars, counter, clock);
            let filled = expand_random(&dated);
            string_of(&filled)
        },
    }
}

impl Config {
    /// Renders a filename now: at the reading that the system clock gives, with
    /// the configuration's counter.
    pub fn make_filename(&self, n: Option<&str>) -> (name: String)
        ensures
            match n {
                None => name@.len() == 12 && all_letters(name@),
                Some(p) => exists|clock: Clock|
                    clock.valid() && #[trigger] fills(
                        dated(p@, self.last_index as nat, clock),
                        name@,
                    ),
            },
    {
        let clock = utc_now();
        render_filename(n, self.last_index, &clock)
    }
}

} // verus!
