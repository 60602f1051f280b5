//! Cycle coordinates (`week N`, `day M`) read from free-text titles, and
//! the title of the routine that follows.
use vstd::prelude::*;
use crate::text::{chars_of, decimal, digit_char, digit_value, digits_value, is_digit, is_space, is_space_char, push_decimal};

verus! {

/// `c` is the lower-case letter `l` or one of its case variants, for the
/// letters of the keywords that this library looks for.
pub open spec fn folds_to(c: char, l: char) -> bool {
    c == l || (l == 'w' && c == 'W') || (l == 'e' && c == 'E') || (l == 'k' && (c == 'K'
        || c == '\u{212a}')) || (l == 'd' && c == 'D') || (l == 'a' && c == 'A') || (l == 'y'
        && c == 'Y') || (l == 'r' && c == 'R') || (l == 'p' && c == 'P') || (l == 'm' && c == 'M')
        || (l == 'u' && c == 'U')
}

pub fn folds_to_exec(c: char, l: char) -> (r: bool)
    ensures
        r == folds_to(c, l),
{
    c == l || (l == 'w' && c == 'W') || (l == 'e' && c == 'E') || (l == 'k' && (c == 'K'
        || c == '\u{212a}')) || (l == 'd' && c == 'D') || (l == 'a' && c == 'A') || (l == 'y'
        && c == 'Y') || (l == 'r' && c == 'R') || (l == 'p' && c == 'P') || (l == 'm' && c == 'M')
        || (l == 'u' && c == 'U')
}

pub open spec fn week_keyword() -> Seq<char> {
    seq!['w', 'e', 'e', 'k']
}

pub open spec fn day_keyword() -> Seq<char> {
    seq!['d', 'a', 'y']
}

/// The keyword `kw` stands at position `i` of `s`, case ignored.
pub open spec fn word_at(s: Seq<char>, i: int, kw: Seq<char>) -> bool {
    &&& 0 <= i
    &&& i + kw.len() <= s.len()
    &&& forall|j: int| 0 <= j < kw.len() ==> folds_to(#[trigger] s[i + j], kw[j])
}

/// The first position at or after `i` that does not hold white space.
pub open spec fn skip_spaces(s: Seq<char>, i: int) -> int
    recommends
        0 <= i,
    decreases s.len() - i,
{
    if 0 <= i < s.len() && is_space(s[i]) {
        skip_spaces(s, i + 1)
    } else {
        i
    }
}

/// The end of the run of decimal digits that starts at `i`.
pub open spec fn digits_end(s: Seq<char>, i: int) -> int
    recommends
        0 <= i,
    decreases s.len() - i,
{
    if 0 <= i < s.len() && is_digit(s[i]) {
        digits_end(s, i + 1)
    } else {
        i
    }
}

/// A token `kw <N>` starts at `i`: the keyword, any white space, then at
/// least one digit.
pub open spec fn token_at(s: Seq<char>, i: int, kw: Seq<char>) -> bool {
    &&& word_at(s, i, kw)
    &&& skip_spaces(s, i + kw.len()) < s.len()
    &&& is_digit(s[skip_spaces(s, i + kw.len())])
}

/// The leftmost token `kw <N>` at or after `i`.
pub open spec fn first_token_from(s: Seq<char>, kw: Seq<char>, i: int) -> Option<int>
    decreases s.len() - i,
{
    if i < 0 || i >= s.len() {
        None
    } else if token_at(s, i, kw) {
        Some(i)
    } else {
        first_token_from(s, kw, i + 1)
    }
}

pub open spec fn first_token(s: Seq<char>, kw: Seq<char>) -> Option<int> {
    first_token_from(s, kw, 0)
}

/// The digits of the leftmost token `kw <N>` of `s`.
pub open spec fn token_digits(s: Seq<char>, kw: Seq<char>) -> Option<Seq<char>> {
    match first_token(s, kw) {
        Some(i) => {
            let d = skip_spaces(s, i + kw.len());
            Some(s.subrange(d, digits_end(s, d)))
        },
        None => None,
    }
}

/// The number of the leftmost token `kw <N>` of `s`, where there is one and
/// it fits in a `u32`.
pub open spec fn token_number(s: Seq<char>, kw: Seq<char>) -> Option<u32> {
    match token_digits(s, kw) {
        Some(ds) => if digits_value(ds) <= u32::MAX {
            Some(digits_value(ds) as u32)
        } else {
            None
        },
        None => None,
    }
}

/// The week of a title: its `week <N>` token, else 1.
pub open spec fn week_of(s: Seq<char>) -> u32 {
    match token_number(s, week_keyword()) {
        Some(n) => n,
        None => 1,
    }
}

/// The day of a title: its `day <N>` token, else 1.
pub open spec fn day_of(s: Seq<char>) -> u32 {
    match token_number(s, day_keyword()) {
        Some(n) => n,
        None => 1,
    }
}

/// The week after `week` in an eight-week cycle: 8 and beyond wrap to 1.
pub open spec fn next_week_of(week: u32) -> u32 {
    if week >= 8 {
        1
    } else {
        (week + 1) as u32
    }
}

/// The title of the routine that follows a session titled `s`.
pub open spec fn next_title(s: Seq<char>) -> Seq<char> {
    let has_week = first_token(s, week_keyword()) is Some;
    let has_day = first_token(s, day_keyword()) is Some;
    let nw = next_week_of(week_of(s)) as nat;
    if has_day && has_week {
        "Day "@ + decimal(day_of(s) as nat) + " - Week "@ + decimal(nw)
    } else if has_day {
        "Day "@ + decimal((day_of(s) + 1) as nat)
    } else if has_week {
        "Week "@ + decimal(nw)
    } else {
        "Week 2"@
    }
}

pub fn word_at_exec(s: &Vec<char>, i: usize, kw: &Vec<char>) -> (r: bool)
    ensures
        r == word_at(s@, i as int, kw@),
{
    if kw.len() > s.len() || i > s.len() - kw.len() {
        return false;
    }
    let mut j: usize = 0;
    while j < kw.len()
        invariant
            i + kw.len() <= s.len(),
            j <= kw.len(),
            forall|k: int| 0 <= k < j ==> folds_to(#[trigger] s@[i + k], kw@[k]),
        decreases kw.len() - j,
    {
        if !folds_to_exec(s[i + j], kw[j]) {
            return false;
        }
        j += 1;
    }
    true
}

pub fn skip_spaces_exec(s: &Vec<char>, i: usize) -> (r: usize)
    requires
        i <= s.len(),
    ensures
        r == skip_spaces(s@, i as int),
        i <= r <= s.len(),
{
    let mut k = i;
    while k < s.len() && is_space_char(s[k])
        invariant
            i <= k <= s.len(),
            skip_spaces(s@, k as int) == skip_spaces(s@, i as int),
        decreases s.len() - k,
    {
        k += 1;
    }
    k
}

fn digits_end_exec(s: &Vec<char>, i: usize) -> (r: usize)
    requires
        i <= s.len(),
    ensures
        r == digits_end(s@, i as int),
        i <= r <= s.len(),
        forall|k: int| i <= k < r ==> is_digit(#[trigger] s@[k]),
{
    let mut k = i;
    while k < s.len() && '0' <= s[k] && s[k] <= '9'
        invariant
            i <= k <= s.len(),
            digits_end(s@, k as int) == digits_end(s@, i as int),
            forall|m: int| i <= m < k ==> is_digit(#[trigger] s@[m]),
        decreases s.len() - k,
    {
        k += 1;
    }
    k
}

/// A longer run of digits denotes at least as much.
proof fn lemma_digits_value_prefix(ds: Seq<char>, k: int)
    requires
        0 <= k <= ds.len(),
    ensures
        digits_value(ds.subrange(0, k)) <= digits_value(ds),
    decreases ds.len(),
{
    if k < ds.len() {
        assert(ds.drop_last() =~= ds.subrange(0, ds.len() - 1));
        lemma_digits_value_prefix(ds.drop_last(), k);
        assert(ds.drop_last().subrange(0, k) =~= ds.subrange(0, k));
    } else {
        assert(ds.subrange(0, k) =~= ds);
    }
}

/// The number denoted by `s[from..to]`, if it fits in a `u32`.
fn digits_number(s: &Vec<char>, from: usize, to: usize) -> (r: Option<u32>)
    requires
        from <= to <= s.len(),
    ensures
        r == (if digits_value(s@.subrange(from as int, to as int)) <= u32::MAX {
            Some(digits_value(s@.subrange(from as int, to as int)) as u32)
        } else {
            None
        }),
{
    let ghost ds = s@.subrange(from as int, to as int);
    let mut acc: u64 = 0;
    let mut k = from;
    while k < to
        invariant
            from <= k <= to <= s.len(),
            ds == s@.subrange(from as int, to as int),
            acc == digits_value(ds.subrange(0, k - from)),
            acc <= u32::MAX,
        decreases to - k,
    {
        let c = s[k];
        let d: u64 = if c == '1' {
            1
        } else if c == '2' {
            2
        } else if c == '3' {
            3
        } else if c == '4' {
            4
        } else if c == '5' {
            5
        } else if c == '6' {
            6
        } else if c == '7' {
            7
        } else if c == '8' {
            8
        } else if c == '9' {
            9
        } else {
            0
        };
        proof {
            let pre = ds.subrange(0, k + 1 - from);
            assert(pre.drop_last() =~= ds.subrange(0, k - from));
            assert(pre.last() == c);
        }
        acc = acc * 10 + d;
        k += 1;
        if acc > 0xffff_ffff {
            proof {
                lemma_digits_value_prefix(ds, k - from);
            }
            return None;
        }
    }
    assert(ds.subrange(0, to - from) =~= ds);
    Some(acc as u32)
}

/// Moves a search for the leftmost token past positions that hold none.
proof fn lemma_first_token_skip(s: Seq<char>, kw: Seq<char>, i: int, k: int)
    requires
        0 <= i <= k,
        forall|m: int| i <= m < k ==> !token_at(s, m, kw),
    ensures
        first_token_from(s, kw, i) == first_token_from(s, kw, k),
    decreases k - i,
{
    if i < k {
        lemma_first_token_skip(s, kw, i + 1, k);
    }
}

fn token_at_exec(s: &Vec<char>, i: usize, kw: &Vec<char>) -> (r: bool)
    requires
        i <= s.len(),
    ensures
        r == token_at(s@, i as int, kw@),
{
    if !word_at_exec(s, i, kw) {
        return false;
    }
    let d = skip_spaces_exec(s, i + kw.len());
    d < s.len() && '0' <= s[d] && s[d] <= '9'
}

/// The position of the leftmost token `kw <N>` of `s`.
fn find_token(s: &Vec<char>, kw: &Vec<char>) -> (r: Option<usize>)
    ensures
        r matches Some(i) ==> first_token(s@, kw@) == Some(i as int) && token_at(
            s@,
            i as int,
            kw@,
        ),
        r is None ==> first_token(s@, kw@) is None,
{
    let mut i: usize = 0;
    while i < s.len()
        invariant
            i <= s.len(),
            first_token(s@, kw@) == first_token_from(s@, kw@, i as int),
        decreases s.len() - i,
    {
        if token_at_exec(s, i, kw) {
            return Some(i);
        }
        proof {
            lemma_first_token_skip(s@, kw@, i as int, i + 1);
        }
        i += 1;
    }
    None
}

/// The number of the leftmost token `kw <N>` of `s`, where it fits in a
/// `u32`, and whether `s` holds such a token at all.
fn token_number_exec(s: &Vec<char>, kw: &Vec<char>) -> (r: (bool, Option<u32>))
    ensures
        r.0 == (first_token(s@, kw@) is Some),
        r.1 == token_number(s@, kw@),
{
    let n = s.len();
    match find_token(s, kw) {
        Some(i) => {
            assert(i + kw@.len() <= n);
            let d = skip_spaces_exec(s, i + kw.len());
            let e = digits_end_exec(s, d);
            (true, digits_number(s, d, e))
        },
        None => (false, None),
    }
}

fn week_chars() -> (r: Vec<char>)
    ensures
        r@ == week_keyword(),
{
    let r = vec!['w', 'e', 'e', 'k'];
    assert(r@ =~= week_keyword());
    r
}

fn day_chars() -> (r: Vec<char>)
    ensures
        r@ == day_keyword(),
{
    let r = vec!['d', 'a', 'y'];
    assert(r@ =~= day_keyword());
    r
}

/// The week and day of a title; an absent (or too large) number reads as 1.
pub fn extract_week_and_day(title: &str) -> (r: (u32, u32))
    ensures
        r == (week_of(title@), day_of(title@)),
{
    let s = chars_of(title);
    let week = token_number_exec(&s, &week_chars()).1;
    let day = token_number_exec(&s, &day_chars()).1;
    let w = match week {
        Some(n) => n,
        None => 1,
    };
    let d = match day {
        Some(n) => n,
        None => 1,
    };
    (w, d)
}

/// The number of the title's `week <N>` token, if it has one that fits.
pub fn extract_week_from_title(title: &str) -> (r: Option<u32>)
    ensures
        r == token_number(title@, week_keyword()),
{
    let s = chars_of(title);
    token_number_exec(&s, &week_chars()).1
}

/// The number of the title's `day <N>` token, if it has one that fits.
pub fn extract_day_number(title: &str) -> (r: Option<u32>)
    ensures
        r == token_number(title@, day_keyword()),
{
    let s = chars_of(title);
    token_number_exec(&s, &day_chars()).1
}

/// The week after `week`: 8 and beyond wrap to 1.
pub fn next_week_index(week: u32) -> (r: u32)
    ensures
        r == next_week_of(week),
{
    if week >= 8 {
        1
    } else {
        week + 1
    }
}

/// The title of the routine that follows a session titled `title`: the week
/// advances (8 wraps to 1) and the day stays; a day-only title advances the
/// day; a title with neither reads as week 1 and gives `"Week 2"`.
pub fn determine_routine_title_format(title: &str) -> (r: String)
    ensures
        r@ == next_title(title@),
{
    let s = chars_of(title);
    let (has_week, week) = token_number_exec(&s, &week_chars());
    let (has_day, day) = token_number_exec(&s, &day_chars());
    let w = match week {
        Some(n) => n,
        None => 1,
    };
    let d = match day {
        Some(n) => n,
        None => 1,
    };
    let nw = next_week_index(w);
    let mut out = String::new();
    if has_day && has_week {
        out.append("Day ");
        push_decimal(&mut out, d as u64);
        out.append(" - Week ");
        push_decimal(&mut out, nw as u64);
    } else if has_day {
        out.append("Day ");
        push_decimal(&mut out, d as u64 + 1);
    } else if has_week {
        out.append("Week ");
        push_decimal(&mut out, nw as u64);
    } else {
        out.append("Week 2");
    }
    assert(out@ =~= next_title(title@));
    out
}

proof fn lemma_digit_char(d: int)
    requires
        0 <= d < 10,
    ensures
        is_digit(digit_char(d)),
        digit_value(digit_char(d)) == d,
{
}

proof fn lemma_decimal_digits(n: nat)
    ensures
        decimal(n).len() >= 1,
        forall|j: int| 0 <= j < decimal(n).len() ==> is_digit(#[trigger] decimal(n)[j]),
        digits_value(decimal(n)) == n,
    decreases n,
{
    if n < 10 {
        lemma_digit_char(n as int);
        assert(decimal(n).drop_last() =~= Seq::<char>::empty());
        assert(digits_value(Seq::<char>::empty()) == 0);
        assert(digits_value(decimal(n)) == digits_value(decimal(n).drop_last()) * 10 + digit_value(
            decimal(n).last(),
        ));
    } else {
        lemma_decimal_digits(n / 10);
        lemma_digit_char((n % 10) as int);
        let d = decimal(n);
        assert(d.drop_last() =~= decimal(n / 10));
        assert(d.last() == digit_char((n % 10) as int));
        assert(digits_value(d) == digits_value(d.drop_last()) * 10 + digit_value(d.last()));
        assert((n / 10) * 10 + n % 10 == n);
        assert forall|j: int| 0 <= j < d.len() implies is_digit(#[trigger] d[j]) by {
            if j < d.len() - 1 {
                assert(d[j] == decimal(n / 10)[j]);
            }
        }
    }
}

/// Skipping white space over a run of it ends where the run ends.
proof fn lemma_skip_run(s: Seq<char>, k: int, m: int)
    requires
        0 <= k <= k + m <= s.len(),
        forall|j: int| k <= j < k + m ==> is_space(#[trigger] s[j]),
        k + m == s.len() || !is_space(s[k + m]),
    ensures
        skip_spaces(s, k) == k + m,
    decreases m,
{
    if m > 0 {
        lemma_skip_run(s, k + 1, m - 1);
    }
}

/// Reading digits over a run of them ends where the run ends.
proof fn lemma_digits_run(s: Seq<char>, k: int, m: int)
    requires
        0 <= k <= k + m <= s.len(),
        forall|j: int| k <= j < k + m ==> is_digit(#[trigger] s[j]),
        k + m == s.len() || !is_digit(s[k + m]),
    ensures
        digits_end(s, k) == k + m,
    decreases m,
{
    if m > 0 {
        lemma_digits_run(s, k + 1, m - 1);
    }
}

/// Skipping white space within `p` gives the same answer in `p + q` when
/// `q` does not start with white space.
proof fn lemma_skip_prefix(p: Seq<char>, q: Seq<char>, k: int)
    requires
        0 <= k <= p.len(),
        q.len() > 0,
        !is_space(q[0]),
    ensures
        skip_spaces(p + q, k) == skip_spaces(p, k),
        k <= skip_spaces(p, k) <= p.len(),
    decreases p.len() - k,
{
    if k < p.len() {
        assert((p + q)[k] == p[k]);
        if is_space(p[k]) {
            lemma_skip_prefix(p, q, k + 1);
        }
    } else {
        assert((p + q)[k] == q[0]);
    }
}

/// The first letter of a keyword (`w` or `d`) never stands for a later
/// letter of it.
pub open spec fn keyword(kw: Seq<char>) -> bool {
    kw == week_keyword() || kw == day_keyword()
}

/// Whoever writes `word` for `kw` (any case) and then white space and the
/// number `n`, after text holding no such token, and before text that does
/// not continue the number, is read back as `n`.
pub proof fn lemma_token_recovered(
    prefix: Seq<char>,
    word: Seq<char>,
    gap: Seq<char>,
    n: u32,
    suffix: Seq<char>,
    kw: Seq<char>,
)
    requires
        keyword(kw),
        word.len() == kw.len(),
        forall|j: int| 0 <= j < kw.len() ==> folds_to(#[trigger] word[j], kw[j]),
        forall|j: int| 0 <= j < gap.len() ==> is_space(#[trigger] gap[j]),
        first_token(prefix, kw) is None,
        suffix.len() == 0 || !is_digit(suffix[0]),
    ensures
        first_token(prefix + word + gap + decimal(n as nat) + suffix, kw) == Some(prefix.len() as int),
        token_number(prefix + word + gap + decimal(n as nat) + suffix, kw) == Some(n),
        kw == week_keyword() ==> week_of(prefix + word + gap + decimal(n as nat) + suffix) == n,
        kw == day_keyword() ==> day_of(prefix + word + gap + decimal(n as nat) + suffix) == n,
{
    let d = decimal(n as nat);
    lemma_decimal_digits(n as nat);
    let rest = word + gap + d + suffix;
    let s = prefix + rest;
    assert(s =~= prefix + word + gap + d + suffix);
    let p = prefix.len() as int;
    let g = p + kw.len();
    let dstart = g + gap.len();
    let dend = dstart + d.len();
    assert forall|j: int| 0 <= j < kw.len() implies s[p + j] == word[j] by {}
    assert(word_at(s, p, kw));
    assert forall|j: int| g <= j < dstart implies is_space(#[trigger] s[j]) by {
        assert(s[j] == gap[j - g]);
    }
    assert(s[dstart] == d[0]);
    assert(!is_space(d[0]));
    lemma_skip_run(s, g, gap.len() as int);
    assert(token_at(s, p, kw));
    assert forall|j: int| dstart <= j < dend implies is_digit(#[trigger] s[j]) by {
        assert(s[j] == d[j - dstart]);
    }
    if dend < s.len() {
        assert(s[dend] == suffix[0]);
    }
    lemma_digits_run(s, dstart, d.len() as int);
    assert(s.subrange(dstart, dend) =~= d);
    // no token before position p
    assert(rest[0] == word[0]);
    assert(word[0] == 'w' || word[0] == 'W' || word[0] == 'd' || word[0] == 'D') by {
        assert(folds_to(word[0], kw[0]));
    }
    assert forall|i: int| 0 <= i < p implies !token_at(s, i, kw) by {
        lemma_no_token_in_prefix(prefix, rest, kw, i);
    }
    lemma_first_token_skip(s, kw, 0, p);
}

/// A token cannot start within `prefix` (which holds none) when what
/// follows starts with a keyword's first letter.
proof fn lemma_no_token_in_prefix(prefix: Seq<char>, rest: Seq<char>, kw: Seq<char>, i: int)
    requires
        keyword(kw),
        0 <= i < prefix.len(),
        first_token(prefix, kw) is None,
        rest.len() > 0,
        rest[0] == 'w' || rest[0] == 'W' || rest[0] == 'd' || rest[0] == 'D',
    ensures
        !token_at(prefix + rest, i, kw),
{
    let s = prefix + rest;
    let p = prefix.len() as int;
    if word_at(s, i, kw) {
        if i + kw.len() <= p {
            assert forall|j: int| 0 <= j < kw.len() implies folds_to(
                #[trigger] prefix[i + j],
                kw[j],
            ) by {
                assert(s[i + j] == prefix[i + j]);
            }
            assert(word_at(prefix, i, kw));
            lemma_skip_prefix(prefix, rest, i + kw.len());
            lemma_first_token_none(prefix, kw, 0, i);
            let k = skip_spaces(prefix, i + kw.len());
            if k < p {
                assert(s[k] == prefix[k]);
            } else {
                assert(s[k] == rest[0]);
            }
        } else {
            let j = p - i;
            assert(0 < j < kw.len());
            assert(s[i + j] == rest[0]);
            assert(folds_to(s[i + j], kw[j]));
        }
    }
}

/// Nothing in `s` from `i` on is a token when the search from `i` finds none.
proof fn lemma_first_token_none(s: Seq<char>, kw: Seq<char>, i: int, k: int)
    requires
        0 <= i <= k < s.len(),
        first_token_from(s, kw, i) is None,
    ensures
        !token_at(s, k, kw),
    decreases k - i,
{
    if i < k {
        lemma_first_token_none(s, kw, i + 1, k);
    }
}

/// A title without a `week <N>` token is in week 1; one without a
/// `day <N>` token is on day 1.
pub proof fn lemma_absent_tokens_default(s: Seq<char>)
    ensures
        first_token(s, week_keyword()) is None ==> week_of(s) == 1,
        first_token(s, day_keyword()) is None ==> day_of(s) == 1,
{
}

/// Text in which no character is a `w` holds no week token.
proof fn lemma_no_week_without_w(s: Seq<char>, i: int)
    requires
        0 <= i,
        forall|j: int| 0 <= j < s.len() ==> !folds_to(#[trigger] s[j], 'w'),
    ensures
        first_token_from(s, week_keyword(), i) is None,
    decreases s.len() - i,
{
    if i < s.len() {
        if word_at(s, i, week_keyword()) {
            assert(folds_to(s[i + 0], week_keyword()[0]));
        }
        lemma_no_week_without_w(s, i + 1);
    }
}

/// The title that follows a title with both a week and a day reads back as
/// the next week (8 and beyond wrap to 1) on the same day: the wrap leaves
/// the day alone.
pub proof fn lemma_next_title_reads_back(s: Seq<char>)
    requires
        first_token(s, week_keyword()) is Some,
        first_token(s, day_keyword()) is Some,
    ensures
        week_of(next_title(s)) == next_week_of(week_of(s)),
        day_of(next_title(s)) == day_of(s),
        week_of(s) >= 8 ==> next_title(s) == "Day "@ + decimal(day_of(s) as nat) + " - Week 1"@,
{
    reveal_strlit("Day ");
    reveal_strlit(" - Week ");
    reveal_strlit(" - Week 1");
    reveal_strlit("1");
    let d = day_of(s);
    let nw = next_week_of(week_of(s));
    let t = next_title(s);
    let day_word = seq!['D', 'a', 'y'];
    let week_word = seq!['W', 'e', 'e', 'k'];
    let sp = seq![' '];
    let tail = " - Week "@ + decimal(nw as nat);
    assert(t =~= Seq::<char>::empty() + day_word + sp + decimal(d as nat) + tail);
    assert(first_token(Seq::<char>::empty(), day_keyword()) is None);
    lemma_token_recovered(Seq::empty(), day_word, sp, d, tail, day_keyword());
    let prefix = "Day "@ + decimal(d as nat) + seq![' ', '-', ' '];
    lemma_decimal_digits(d as nat);
    assert forall|j: int| 0 <= j < prefix.len() implies !folds_to(#[trigger] prefix[j], 'w') by {
        if 4 <= j < 4 + decimal(d as nat).len() {
            assert(prefix[j] == decimal(d as nat)[j - 4]);
        }
    }
    lemma_no_week_without_w(prefix, 0);
    assert(t =~= prefix + week_word + sp + decimal(nw as nat) + Seq::<char>::empty());
    lemma_token_recovered(prefix, week_word, sp, nw, Seq::empty(), week_keyword());
    if week_of(s) >= 8 {
        assert(decimal(1) =~= seq!['1']);
        assert(t =~= "Day "@ + decimal(d as nat) + " - Week 1"@);
    }
}

/// The title that follows a week-only title reads back as the next week
/// (8 and beyond wrap to 1), still without a day.
pub proof fn lemma_week_only_title_reads_back(s: Seq<char>)
    requires
        first_token(s, week_keyword()) is Some,
        first_token(s, day_keyword()) is None,
    ensures
        week_of(next_title(s)) == next_week_of(week_of(s)),
        week_of(s) >= 8 ==> next_title(s) == "Week 1"@,
{
    reveal_strlit("Week ");
    reveal_strlit("Week 1");
    let nw = next_week_of(week_of(s));
    let t = next_title(s);
    let week_word = seq!['W', 'e', 'e', 'k'];
    let sp = seq![' '];
    assert(t =~= Seq::<char>::empty() + week_word + sp + decimal(nw as nat) + Seq::<char>::empty());
    assert(first_token(Seq::<char>::empty(), week_keyword()) is None);
    lemma_token_recovered(Seq::empty(), week_word, sp, nw, Seq::empty(), week_keyword());
    if week_of(s) >= 8 {
        assert(decimal(1) =~= seq!['1']);
        assert(t =~= "Week 1"@);
    }
}

} // verus!
