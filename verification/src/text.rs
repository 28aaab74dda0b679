//! Text as the console sees it: blanks, words, joined lines and numerals.

use vstd::prelude::*;

verus! {

// ---------------------------------------------------------------------------
// Characters
// ---------------------------------------------------------------------------

/// The characters with the Unicode property `White_Space`.
pub open spec fn is_blank(c: char) -> bool {
    let n = c as u32;
    ||| 0x09 <= n <= 0x0d
    ||| n == 0x20
    ||| n == 0x85
    ||| n == 0xa0
    ||| n == 0x1680
    ||| 0x2000 <= n <= 0x200a
    ||| n == 0x2028
    ||| n == 0x2029
    ||| n == 0x202f
    ||| n == 0x205f
    ||| n == 0x3000
}

/// The characters of the Unicode general category `Cc`.
pub open spec fn is_control(c: char) -> bool {
    let n = c as u32;
    n <= 0x1f || 0x7f <= n <= 0x9f
}

/// Tells whether a character is white space.
pub fn char_is_blank(c: char) -> (r: bool)
    ensures
        r == is_blank(c),
{
    let n: u32 = c as u32;
    (0x09 <= n && n <= 0x0d) || n == 0x20 || n == 0x85 || n == 0xa0 || n == 0x1680 || (0x2000 <= n
        && n <= 0x200a) || n == 0x2028 || n == 0x2029 || n == 0x202f || n == 0x205f || n == 0x3000
}

/// Tells whether a character is a control character.
pub fn char_is_control(c: char) -> (r: bool)
    ensures
        r == is_control(c),
{
    let n: u32 = c as u32;
    n <= 0x1f || (0x7f <= n && n <= 0x9f)
}

/// Some character of the text is a control character.
pub open spec fn has_control(s: Seq<char>) -> bool {
    exists|i: int| 0 <= i < s.len() && is_control(#[trigger] s[i])
}

/// The characters of a string, one by one.
fn chars_of(s: &str) -> (v: Vec<char>)
    ensures
        v@ == s@,
{
    let mut v: Vec<char> = Vec::new();
    for c in it: s.chars()
        invariant
            it.seq() == s@,
            v@ == s@.take(it.index()),
    {
        v.push(c);
        assert(v@ == s@.take(it.index() + 1));
    }
    assert(s@.take(s@.len() as int) == s@);
    v
}

/// Tells whether a text holds a control character.
pub fn text_has_control(s: &str) -> (r: bool)
    ensures
        r == has_control(s@),
{
    let v = chars_of(s);
    let mut i: usize = 0;
    while i < v.len()
        invariant
            v@ == s@,
            i <= v.len(),
            forall|j: int| 0 <= j < i ==> !is_control(#[trigger] s@[j]),
        decreases v.len() - i,
    {
        if char_is_control(v[i]) {
            assert(is_control(s@[i as int]));
            return true;
        }
        i = i + 1;
    }
    false
}

// ---------------------------------------------------------------------------
// Blanks and words
// ---------------------------------------------------------------------------

/// How many characters at the front of a text are blank (`blank`), or are not
/// blank (`!blank`), before the first one of the other sort.
pub open spec fn run_length(s: Seq<char>, blank: bool) -> nat
    decreases s.len(),
{
    if s.len() > 0 && is_blank(s[0]) == blank {
        1 + run_length(s.drop_first(), blank)
    } else {
        0
    }
}

/// How many characters at the end of a text are blank.
pub open spec fn trailing_blanks(s: Seq<char>) -> nat
    decreases s.len(),
{
    if s.len() > 0 && is_blank(s.last()) {
        1 + trailing_blanks(s.drop_last())
    } else {
        0
    }
}

/// The text without the blanks at its two ends.
pub open spec fn trimmed(s: Seq<char>) -> Seq<char> {
    let t = s.skip(run_length(s, true) as int);
    t.take(t.len() - trailing_blanks(t))
}

/// The words of a text: its longest stretches without a blank, in order.
pub open spec fn words_of(s: Seq<char>) -> Seq<Seq<char>>
    decreases s.len(),
    via words_of_shrinks
{
    let t = s.skip(run_length(s, true) as int);
    if t.len() == 0 {
        seq![]
    } else {
        let n = run_length(t, false) as int;
        seq![t.take(n)] + words_of(t.skip(n))
    }
}

#[via_fn]
proof fn words_of_shrinks(s: Seq<char>) {
    lemma_run_bounds(s, true);
    let t = s.skip(run_length(s, true) as int);
    lemma_run_bounds(t, false);
    lemma_run_stops(s, true);
}

/// A run is no longer than its text.
proof fn lemma_run_bounds(s: Seq<char>, blank: bool)
    ensures
        run_length(s, blank) <= s.len(),
        forall|i: int| 0 <= i < run_length(s, blank) ==> is_blank(#[trigger] s[i]) == blank,
    decreases s.len(),
{
    if s.len() > 0 && is_blank(s[0]) == blank {
        lemma_run_bounds(s.drop_first(), blank);
        assert forall|i: int| 0 <= i < run_length(s, blank) implies is_blank(#[trigger] s[i])
            == blank by {
            if i > 0 {
                assert(s.drop_first()[i - 1] == s[i]);
            }
        }
    }
}

/// A run ends at the end of the text or at a character of the other sort.
proof fn lemma_run_stops(s: Seq<char>, blank: bool)
    ensures
        run_length(s, blank) < s.len() ==> is_blank(s[run_length(s, blank) as int]) != blank,
    decreases s.len(),
{
    if s.len() > 0 && is_blank(s[0]) == blank {
        lemma_run_stops(s.drop_first(), blank);
    }
}

/// A stretch of one sort that ends where a run must end is the run.
proof fn lemma_run_is(s: Seq<char>, blank: bool, n: int)
    requires
        0 <= n <= s.len(),
        forall|i: int| 0 <= i < n ==> is_blank(#[trigger] s[i]) == blank,
        n < s.len() ==> is_blank(s[n]) != blank,
    ensures
        run_length(s, blank) == n,
{
    lemma_run_bounds(s, blank);
    lemma_run_stops(s, blank);
    let k = run_length(s, blank) as int;
    if k < n {
        assert(is_blank(s[k]) == blank);
    } else if k > n {
        assert(is_blank(s[n]) == blank);
    }
}

/// The blanks at the end are blank, and the character before them is not.
proof fn lemma_trailing_bounds(s: Seq<char>)
    ensures
        trailing_blanks(s) <= s.len(),
        forall|i: int| s.len() - trailing_blanks(s) <= i < s.len() ==> is_blank(#[trigger] s[i]),
        trailing_blanks(s) < s.len() ==> !is_blank(s[s.len() - trailing_blanks(s) - 1]),
    decreases s.len(),
{
    if s.len() > 0 && is_blank(s.last()) {
        lemma_trailing_bounds(s.drop_last());
        let u = s.drop_last();
        assert forall|i: int| s.len() - trailing_blanks(s) <= i < s.len() implies is_blank(
            #[trigger] s[i],
        ) by {
            if i < s.len() - 1 {
                assert(u[i] == s[i]);
            }
        }
    }
}

/// A stretch of blanks that ends the text and follows a non-blank is all of
/// the blanks at the end.
proof fn lemma_trailing_is(s: Seq<char>, n: int)
    requires
        0 <= n <= s.len(),
        forall|i: int| s.len() - n <= i < s.len() ==> is_blank(#[trigger] s[i]),
        n < s.len() ==> !is_blank(s[s.len() - n - 1]),
    ensures
        trailing_blanks(s) == n,
{
    lemma_trailing_bounds(s);
    let k = trailing_blanks(s) as int;
    if k < n {
        assert(is_blank(s[s.len() - k - 1]));
    } else if k > n {
        assert(is_blank(s[s.len() - n - 1]));
    }
}

/// Takes the blanks off both ends of a text.
pub fn trim<'a>(s: &'a str) -> (r: &'a str)
    ensures
        r@ == trimmed(s@),
{
    let v = chars_of(s);
    let mut from: usize = 0;
    while from < v.len() && char_is_blank(v[from])
        invariant
            v@ == s@,
            from <= v.len(),
            forall|i: int| 0 <= i < from ==> is_blank(#[trigger] s@[i]),
        decreases v.len() - from,
    {
        from = from + 1;
    }
    proof {
        lemma_run_is(s@, true, from as int);
    }
    let ghost t = s@.skip(from as int);
    let mut to: usize = v.len();
    while from < to && char_is_blank(v[to - 1])
        invariant
            v@ == s@,
            from <= to <= v.len(),
            t == s@.skip(from as int),
            forall|i: int| to <= i < v.len() ==> is_blank(#[trigger] s@[i]),
        decreases to,
    {
        to = to - 1;
    }
    proof {
        assert forall|i: int| t.len() - (v.len() - to) <= i < t.len() implies is_blank(
            #[trigger] t[i],
        ) by {
            assert(t[i] == s@[i + from]);
        }
        lemma_trailing_is(t, v.len() - to);
        assert(t.take(to - from) == s@.subrange(from as int, to as int));
    }
    s.substring_char(from, to)
}

/// What a list of string slices says.
pub open spec fn texts(v: Seq<&str>) -> Seq<Seq<char>> {
    v.map_values(|t: &str| t@)
}

/// What a list of strings says.
pub open spec fn string_texts(v: Seq<String>) -> Seq<Seq<char>> {
    v.map_values(|t: String| t@)
}

/// Splits a text into its words.
pub fn split_words<'a>(s: &'a str) -> (r: Vec<&'a str>)
    ensures
        texts(r@) == words_of(s@),
{
    let v = chars_of(s);
    let mut r: Vec<&'a str> = Vec::new();
    let mut pos: usize = 0;
    assert(s@.skip(0) == s@);
    assert(texts(r@) + words_of(s@) == words_of(s@));
    while pos < v.len()
        invariant
            v@ == s@,
            pos <= v.len(),
            texts(r@) + words_of(s@.skip(pos as int)) == words_of(s@),
        decreases v.len() - pos,
    {
        let ghost rest = s@.skip(pos as int);
        let mut start: usize = pos;
        while start < v.len() && char_is_blank(v[start])
            invariant
                v@ == s@,
                pos <= start <= v.len(),
                forall|i: int| pos <= i < start ==> is_blank(#[trigger] s@[i]),
            decreases v.len() - start,
        {
            start = start + 1;
        }
        proof {
            assert forall|i: int| 0 <= i < start - pos implies is_blank(#[trigger] rest[i]) by {
                assert(rest[i] == s@[i + pos]);
            }
            lemma_run_is(rest, true, start - pos);
        }
        let ghost t = rest.skip(start - pos);
        assert(t == s@.skip(start as int));
        let mut end: usize = start;
        while end < v.len() && !char_is_blank(v[end])
            invariant
                v@ == s@,
                start <= end <= v.len(),
                forall|i: int| start <= i < end ==> !is_blank(#[trigger] s@[i]),
            decreases v.len() - end,
        {
            end = end + 1;
        }
        proof {
            assert forall|i: int| 0 <= i < end - start implies !is_blank(#[trigger] t[i]) by {
                assert(t[i] == s@[i + start]);
            }
            lemma_run_is(t, false, end - start);
            assert(t.skip(end - start) == s@.skip(end as int));
            assert(t.take(end - start) == s@.subrange(start as int, end as int));
        }
        if start < end {
            let ghost before = texts(r@);
            r.push(s.substring_char(start, end));
            assert(texts(r@) == before.push(s@.subrange(start as int, end as int)));
            assert(texts(r@) + words_of(s@.skip(end as int)) == before + (seq![
                s@.subrange(start as int, end as int),
            ] + words_of(s@.skip(end as int))));
        } else {
            assert(words_of(s@.skip(end as int)) == Seq::<Seq<char>>::empty());
        }
        pos = end;
    }
    assert(words_of(s@.skip(pos as int)) == Seq::<Seq<char>>::empty()) by {
        assert(s@.skip(pos as int).len() == 0);
    }
    assert(texts(r@) == texts(r@) + Seq::<Seq<char>>::empty());
    r
}

// ---------------------------------------------------------------------------
// Lines
// ---------------------------------------------------------------------------

/// The last `n` entries of a sequence, or all of them where there are fewer.
pub open spec fn last_of<T>(s: Seq<T>, n: int) -> Seq<T> {
    if s.len() <= n {
        s
    } else {
        s.skip(s.len() - n)
    }
}

/// The parts one after the other, with `sep` between neighbours.
pub open spec fn joined(parts: Seq<Seq<char>>, sep: Seq<char>) -> Seq<char>
    decreases parts.len(),
{
    if parts.len() == 0 {
        seq![]
    } else if parts.len() == 1 {
        parts[0]
    } else {
        parts[0] + sep + joined(parts.drop_first(), sep)
    }
}

/// Joins parts into one string.
pub fn join(parts: &Vec<&str>, sep: &str) -> (r: String)
    ensures
        r@ == joined(texts(parts@), sep@),
{
    let ghost all = texts(parts@);
    let mut r = String::new();
    if parts.len() == 0 {
        return r;
    }
    r.append(parts[0]);
    let mut i: usize = 1;
    assert(all.skip(0) == all);
    assert(all.skip(0).drop_first() == all.skip(1));
    while i < parts.len()
        invariant
            all == texts(parts@),
            1 <= i <= parts.len(),
            joined(all, sep@) == r@ + if i < parts.len() {
                sep@ + joined(all.skip(i as int), sep@)
            } else {
                seq![]
            },
        decreases parts.len() - i,
    {
        let ghost before = r@;
        let ghost rest = all.skip(i as int);
        r.append(sep);
        r.append(parts[i]);
        assert(rest.drop_first() == all.skip(i + 1));
        assert(rest[0] == parts@[i as int]@);
        i = i + 1;
        proof {
            if i < parts.len() {
                let more = joined(all.skip(i as int), sep@);
                assert(joined(rest, sep@) == rest[0] + sep@ + more);
                assert(before + (sep@ + (rest[0] + sep@ + more)) == (before + sep@ + rest[0]) + (sep@
                    + more));
            } else {
                assert(joined(rest, sep@) == rest[0]);
                assert(before + (sep@ + rest[0]) == (before + sep@ + rest[0]) + Seq::<char>::empty());
            }
        }
    }
    r
}

/// Two texts one after the other.
pub fn concat2(a: &str, b: &str) -> (r: String)
    ensures
        r@ == a@ + b@,
{
    let mut r = a.to_owned();
    r.append(b);
    r
}

// ---------------------------------------------------------------------------
// Numerals
// ---------------------------------------------------------------------------

/// The decimal digit of a number below ten.
pub open spec fn digit(d: nat) -> char {
    if d == 0 {
        '0'
    } else if d == 1 {
        '1'
    } else if d == 2 {
        '2'
    } else if d == 3 {
        '3'
    } else if d == 4 {
        '4'
    } else if d == 5 {
        '5'
    } else if d == 6 {
        '6'
    } else if d == 7 {
        '7'
    } else if d == 8 {
        '8'
    } else {
        '9'
    }
}

/// A number in decimal, without leading zeros.
pub open spec fn decimal(n: nat) -> Seq<char>
    decreases n,
{
    if n < 10 {
        seq![digit(n)]
    } else {
        decimal(n / 10).push(digit(n % 10))
    }
}

fn digit_text(d: u64) -> (r: &'static str)
    requires
        d < 10,
    ensures
        r@ == seq![digit(d as nat)],
{
    proof {
        reveal_strlit("0");
        reveal_strlit("1");
        reveal_strlit("2");
        reveal_strlit("3");
        reveal_strlit("4");
        reveal_strlit("5");
        reveal_strlit("6");
        reveal_strlit("7");
        reveal_strlit("8");
        reveal_strlit("9");
    }
    if d == 0 {
        "0"
    } else if d == 1 {
        "1"
    } else if d == 2 {
        "2"
    } else if d == 3 {
        "3"
    } else if d == 4 {
        "4"
    } else if d == 5 {
        "5"
    } else if d == 6 {
        "6"
    } else if d == 7 {
        "7"
    } else if d == 8 {
        "8"
    } else {
        "9"
    }
}

/// Writes a number in decimal.
pub fn decimal_text(n: u64) -> (r: String)
    ensures
        r@ == decimal(n as nat),
    decreases n,
{
    let mut r = if n < 10 {
        String::new()
    } else {
        decimal_text(n / 10)
    };
    let ghost head = r@;
    r.append(digit_text(n % 10));
    proof {
        assert(head + seq![digit((n % 10) as nat)] == head.push(digit((n % 10) as nat)));
        if n < 10 {
            assert(head + seq![digit(n as nat)] == seq![digit(n as nat)]);
        }
    }
    r
}

// ---------------------------------------------------------------------------
// Laws
// ---------------------------------------------------------------------------

/// Words are never empty and never hold a blank.
pub proof fn law_words_are_solid(s: Seq<char>)
    ensures
        forall|i: int|
            0 <= i < words_of(s).len() ==> (#[trigger] words_of(s)[i]).len() > 0,
        forall|i: int, j: int|
            0 <= i < words_of(s).len() && 0 <= j < words_of(s)[i].len() ==> !is_blank(
                #[trigger] words_of(s)[i][j],
            ),
    decreases s.len(),
{
    lemma_run_bounds(s, true);
    lemma_run_stops(s, true);
    let t = s.skip(run_length(s, true) as int);
    if t.len() > 0 {
        lemma_run_bounds(t, false);
        let n = run_length(t, false) as int;
        law_words_are_solid(t.skip(n));
        let rest = words_of(t.skip(n));
        assert(words_of(s) == seq![t.take(n)] + rest);
        assert forall|i: int| 0 <= i < words_of(s).len() implies (#[trigger] words_of(s)[i]).len()
            > 0 by {
            if i > 0 {
                assert(words_of(s)[i] == rest[i - 1]);
            }
        }
        assert forall|i: int, j: int|
            0 <= i < words_of(s).len() && 0 <= j < words_of(s)[i].len() implies !is_blank(
            #[trigger] words_of(s)[i][j],
        ) by {
            if i > 0 {
                assert(words_of(s)[i] == rest[i - 1]);
                assert(!is_blank(rest[i - 1][j]));
            } else {
                assert(words_of(s)[0][j] == t[j]);
            }
        }
    }
}

/// What is left of a text after trimming neither starts nor ends with a blank.
pub proof fn law_trimmed_has_no_outer_blanks(s: Seq<char>)
    ensures
        trimmed(s).len() > 0 ==> !is_blank(trimmed(s)[0]) && !is_blank(trimmed(s).last()),
{
    lemma_run_bounds(s, true);
    lemma_run_stops(s, true);
    let t = s.skip(run_length(s, true) as int);
    lemma_trailing_bounds(t);
}

/// Blanks before a text add no words.
proof fn lemma_blanks_before(u: Seq<char>, b: Seq<char>)
    requires
        forall|i: int| 0 <= i < u.len() ==> is_blank(#[trigger] u[i]),
    ensures
        words_of(u + b) == words_of(b),
{
    let s = u + b;
    lemma_run_bounds(b, true);
    lemma_run_stops(b, true);
    let k = run_length(b, true) as int;
    let n = u.len() + k;
    assert forall|i: int| 0 <= i < n implies is_blank(#[trigger] s[i]) by {
        if i < u.len() {
            assert(s[i] == u[i]);
        } else {
            assert(s[i] == b[i - u.len()]);
        }
    }
    if n < s.len() {
        assert(s[n] == b[k]);
    }
    lemma_run_is(s, true, n);
    assert(s.skip(n) == b.skip(k));
}

/// A text and one that starts with a blank, or is empty, share no word.
proof fn lemma_words_apart(u: Seq<char>, b: Seq<char>)
    requires
        b.len() > 0 ==> is_blank(b[0]),
    ensures
        words_of(u + b) == words_of(u) + words_of(b),
    decreases u.len(),
{
    let s = u + b;
    lemma_run_bounds(u, true);
    lemma_run_stops(u, true);
    let k = run_length(u, true) as int;
    if k == u.len() {
        lemma_blanks_before(u, b);
        assert(words_of(u) + words_of(b) == words_of(b));
    } else {
        assert(s[k] == u[k]);
        assert forall|i: int| 0 <= i < k implies is_blank(#[trigger] s[i]) by {
            assert(s[i] == u[i]);
        }
        lemma_run_is(s, true, k);
        let t = u.skip(k);
        assert(s.skip(k) == t + b);
        lemma_run_bounds(t, false);
        lemma_run_stops(t, false);
        let n = run_length(t, false) as int;
        assert(n > 0) by {
            assert(t[0] == u[k]);
        }
        assert forall|i: int| 0 <= i < n implies !is_blank(#[trigger] (t + b)[i]) by {
            assert((t + b)[i] == t[i]);
        }
        if n < (t + b).len() {
            if n < t.len() {
                assert((t + b)[n] == t[n]);
            } else {
                assert((t + b)[n] == b[0]);
            }
        }
        lemma_run_is(t + b, false, n);
        assert((t + b).take(n) == t.take(n));
        assert((t + b).skip(n) == t.skip(n) + b);
        lemma_words_apart(t.skip(n), b);
        assert(seq![t.take(n)] + (words_of(t.skip(n)) + words_of(b)) == seq![t.take(n)] + words_of(
            t.skip(n),
        ) + words_of(b));
    }
}

/// Blanks behind a text add no words.
proof fn lemma_blanks_behind(u: Seq<char>, b: Seq<char>)
    requires
        forall|i: int| 0 <= i < b.len() ==> is_blank(#[trigger] b[i]),
    ensures
        words_of(u + b) == words_of(u),
{
    lemma_words_apart(u, b);
    lemma_blanks_before(b, Seq::empty());
    assert(b + Seq::<char>::empty() == b);
    assert(words_of(u) + Seq::<Seq<char>>::empty() == words_of(u));
}

/// Trimming a line changes none of its words.
pub proof fn law_trimming_keeps_the_words(s: Seq<char>)
    ensures
        words_of(trimmed(s)) == words_of(s),
{
    lemma_run_bounds(s, true);
    lemma_run_stops(s, true);
    let t = s.skip(run_length(s, true) as int);
    lemma_run_is(t, true, 0);
    assert(t.skip(0) == t);
    assert(words_of(t) == words_of(s));
    lemma_trailing_bounds(t);
    let m = t.len() - trailing_blanks(t);
    let b = t.skip(m);
    assert forall|i: int| 0 <= i < b.len() implies is_blank(#[trigger] b[i]) by {
        assert(b[i] == t[i + m]);
    }
    lemma_blanks_behind(t.take(m), b);
    assert(t.take(m) + b == t);
}

/// A line that is not empty after trimming has a first word.
pub proof fn law_trimmed_line_has_a_word(s: Seq<char>)
    ensures
        trimmed(s).len() > 0 ==> words_of(trimmed(s)).len() > 0,
{
    law_trimmed_has_no_outer_blanks(s);
    let r = trimmed(s);
    if r.len() > 0 {
        lemma_run_is(r, true, 0);
        assert(r.skip(0) == r);
    }
}

/// Different numbers have different numerals.
pub proof fn law_decimal_is_injective(a: nat, b: nat)
    requires
        decimal(a) == decimal(b),
    ensures
        a == b,
    decreases a,
{
    lemma_decimal_len(a);
    lemma_decimal_len(b);
    assert(decimal(a).last() == decimal(b).last());
    if a >= 10 {
        assert(decimal(a).drop_last() == decimal(a / 10));
        assert(decimal(b).drop_last() == decimal(b / 10));
        law_decimal_is_injective(a / 10, b / 10);
    }
}

proof fn lemma_decimal_len(n: nat)
    ensures
        decimal(n).len() >= 1,
        n >= 10 <==> decimal(n).len() >= 2,
        decimal(n).last() == digit(n % 10),
    decreases n,
{
    if n >= 10 {
        lemma_decimal_len(n / 10);
    }
}

/// A text without blanks is one word, and an empty text has none.
pub proof fn law_a_solid_text_is_a_word(w: Seq<char>)
    requires
        forall|i: int| 0 <= i < w.len() ==> !is_blank(#[trigger] w[i]),
    ensures
        w.len() > 0 ==> words_of(w) == seq![w],
        w.len() == 0 ==> words_of(w) == Seq::<Seq<char>>::empty(),
{
    lemma_run_is(w, true, 0);
    assert(w.skip(0) == w);
    if w.len() > 0 {
        lemma_run_is(w, false, w.len() as int);
        assert(w.take(w.len() as int) == w);
        assert(words_of(w.skip(w.len() as int)) == Seq::<Seq<char>>::empty());
        assert(words_of(w) == seq![w]);
    }
}

/// A blank parts the words before it from those behind it.
pub proof fn law_blanks_part_words(a: Seq<char>, blank: char, b: Seq<char>)
    requires
        is_blank(blank),
    ensures
        words_of(a + seq![blank] + b) == words_of(a) + words_of(b),
{
    let rest = seq![blank] + b;
    lemma_words_apart(a, rest);
    lemma_blanks_before(seq![blank], b);
    assert(a + seq![blank] + b == a + rest);
}

/// Trimming cuts one stretch out of a text, and everything before and behind
/// that stretch is blank.
pub proof fn law_trimming_cuts_off_only_blanks(s: Seq<char>)
    ensures
        exists|n: int|
            {
                &&& 0 <= n <= s.len() - trimmed(s).len()
                &&& #[trigger] s.skip(n).take(trimmed(s).len() as int) == trimmed(s)
                &&& forall|i: int| 0 <= i < n ==> is_blank(#[trigger] s[i])
                &&& forall|i: int|
                    n + trimmed(s).len() <= i < s.len() ==> is_blank(#[trigger] s[i])
            },
{
    lemma_run_bounds(s, true);
    let n = run_length(s, true) as int;
    let t = s.skip(n);
    lemma_trailing_bounds(t);
    assert forall|i: int| n + trimmed(s).len() <= i < s.len() implies is_blank(
        #[trigger] s[i],
    ) by {
        assert(t[i - n] == s[i]);
    }
    assert(s.skip(n).take(trimmed(s).len() as int) == trimmed(s));
}

/// A text holds a control character where one of its parts does; a single
/// character does where it is one, and an empty text does not.
pub proof fn law_control_is_found_in_every_part(a: Seq<char>, b: Seq<char>, c: char)
    ensures
        has_control(a + b) <==> has_control(a) || has_control(b),
        has_control(seq![c]) <==> is_control(c),
        !has_control(Seq::empty()),
{
    let s = a + b;
    if has_control(a) {
        let i = choose|i: int| 0 <= i < a.len() && is_control(#[trigger] a[i]);
        assert(s[i] == a[i]);
    }
    if has_control(b) {
        let i = choose|i: int| 0 <= i < b.len() && is_control(#[trigger] b[i]);
        assert(s[a.len() + i] == b[i]);
    }
    if has_control(s) {
        let i = choose|i: int| 0 <= i < s.len() && is_control(#[trigger] s[i]);
        if i < a.len() {
            assert(a[i] == s[i]);
        } else {
            assert(b[i - a.len()] == s[i]);
        }
    }
    assert(seq![c][0] == c);
}

/// The last entries are an end of the sequence, as long as asked for where it
/// is that long, and all of it where it is not.
pub proof fn law_the_last_are_the_end<T>(s: Seq<T>, n: int)
    requires
        n >= 0,
    ensures
        last_of(s, n).len() == (if s.len() < n {
            s.len() as int
        } else {
            n
        }),
        last_of(s, n) == s.skip(s.len() - last_of(s, n).len()),
{
}

/// Nothing joined is nothing, a single part is itself, and two lists one after
/// the other are joined by one more separator between them.
pub proof fn law_joining_puts_separators_between(
    a: Seq<Seq<char>>,
    b: Seq<Seq<char>>,
    part: Seq<char>,
    sep: Seq<char>,
)
    ensures
        joined(Seq::empty(), sep) == Seq::<char>::empty(),
        joined(seq![part], sep) == part,
        a.len() > 0 && b.len() > 0 ==> joined(a + b, sep) == joined(a, sep) + sep + joined(b, sep),
    decreases a.len(),
{
    if a.len() > 0 && b.len() > 0 {
        let all = a + b;
        assert(all[0] == a[0]);
        if a.len() == 1 {
            assert(all.drop_first() == b);
        } else {
            law_joining_puts_separators_between(a.drop_first(), b, part, sep);
            assert(all.drop_first() == a.drop_first() + b);
            assert(a[0] + sep + (joined(a.drop_first(), sep) + sep + joined(b, sep)) == a[0] + sep
                + joined(a.drop_first(), sep) + sep + joined(b, sep));
        }
    }
}

/// The number that decimal digits stand for.
pub open spec fn decimal_value(s: Seq<char>) -> int
    decreases s.len(),
{
    if s.len() == 0 {
        0
    } else {
        10 * decimal_value(s.drop_last()) + (s.last() as int - '0' as int)
    }
}

/// A numeral is made of digits, stands for its number, and starts with a zero
/// only where it is that zero alone.
pub proof fn law_decimal_reads_back(n: nat)
    ensures
        decimal_value(decimal(n)) == n,
        decimal(n).len() > 0,
        forall|i: int| 0 <= i < decimal(n).len() ==> '0' <= #[trigger] decimal(n)[i] <= '9',
        decimal(n)[0] == '0' ==> n == 0 && decimal(n).len() == 1,
    decreases n,
{
    if n < 10 {
        assert(decimal(n).drop_last() == Seq::<char>::empty());
        assert(decimal_value(Seq::<char>::empty()) == 0);
    } else {
        law_decimal_reads_back(n / 10);
        assert(decimal(n).drop_last() == decimal(n / 10));
        assert(decimal(n)[0] == decimal(n / 10)[0]);
        assert forall|i: int| 0 <= i < decimal(n).len() implies '0' <= #[trigger] decimal(n)[i]
            <= '9' by {
            if i < decimal(n / 10).len() {
                assert(decimal(n)[i] == decimal(n / 10)[i]);
            }
        }
    }
}

/// A list of strings says what its strings say, one by one.
pub proof fn law_texts_are_what_is_said(slices: Seq<&str>, strings: Seq<String>)
    ensures
        texts(slices).len() == slices.len(),
        forall|i: int| 0 <= i < slices.len() ==> #[trigger] texts(slices)[i] == slices[i]@,
        string_texts(strings).len() == strings.len(),
        forall|i: int|
            0 <= i < strings.len() ==> #[trigger] string_texts(strings)[i] == strings[i]@,
{
}

/// What `trim` gives is cut out of the text, has no blank at its ends, and
/// everything around it is blank.
pub proof fn law_trim_takes_off_the_blanks(s: &str, r: &str)
    requires
        call_ensures(trim, (s,), r),
    ensures
        r@.len() > 0 ==> !is_blank(r@[0]) && !is_blank(r@.last()),
        exists|n: int|
            {
                &&& 0 <= n <= s@.len() - r@.len()
                &&& #[trigger] s@.skip(n).take(r@.len() as int) == r@
                &&& forall|i: int| 0 <= i < n ==> is_blank(#[trigger] s@[i])
                &&& forall|i: int| n + r@.len() <= i < s@.len() ==> is_blank(#[trigger] s@[i])
            },
{
    law_trimmed_has_no_outer_blanks(s@);
    law_trimming_cuts_off_only_blanks(s@);
}

/// What `split_words` gives of a text with a blank in it is what it gives of
/// the part before the blank, and then what it gives of the part behind. Of a
/// text without blanks it gives that text, and nothing of an empty one.
pub proof fn law_split_words_goes_part_by_part(
    a: &str,
    blank: char,
    b: &str,
    whole: &str,
    of_a: Vec<&str>,
    of_b: Vec<&str>,
    of_whole: Vec<&str>,
)
    requires
        call_ensures(split_words, (a,), of_a),
        call_ensures(split_words, (b,), of_b),
        call_ensures(split_words, (whole,), of_whole),
        is_blank(blank),
        whole@ == a@ + seq![blank] + b@,
    ensures
        texts(of_whole@) == texts(of_a@) + texts(of_b@),
        (forall|i: int| 0 <= i < a@.len() ==> !is_blank(#[trigger] a@[i])) ==> texts(of_a@) == (
        if a@.len() > 0 {
            seq![a@]
        } else {
            seq![]
        }),
{
    law_blanks_part_words(a@, blank, b@);
    if forall|i: int| 0 <= i < a@.len() ==> !is_blank(#[trigger] a@[i]) {
        law_a_solid_text_is_a_word(a@);
    }
}

/// What `join` gives of two lists one after the other is what it gives of each,
/// with the separator between.
pub proof fn law_join_goes_part_by_part(
    a: Vec<&str>,
    b: Vec<&str>,
    all: Vec<&str>,
    sep: &str,
    of_a: String,
    of_b: String,
    of_all: String,
)
    requires
        call_ensures(join, (&a, sep), of_a),
        call_ensures(join, (&b, sep), of_b),
        call_ensures(join, (&all, sep), of_all),
        all@ == a@ + b@,
    ensures
        a@.len() > 0 && b@.len() > 0 ==> of_all@ == of_a@ + sep@ + of_b@,
        a@.len() == 1 ==> of_a@ == a@[0]@,
        a@.len() == 0 ==> of_a@.len() == 0,
{
    law_joining_puts_separators_between(texts(a@), texts(b@), Seq::empty(), sep@);
    assert(texts(all@) == texts(a@) + texts(b@));
    if a@.len() == 1 {
        assert(texts(a@) == seq![a@[0]@]);
    }
}

/// What `decimal_text` gives reads back as the number.
pub proof fn law_decimal_text_reads_back(n: u64, r: String)
    requires
        call_ensures(decimal_text, (n,), r),
    ensures
        decimal_value(r@) == n,
        forall|i: int| 0 <= i < r@.len() ==> '0' <= #[trigger] r@[i] <= '9',
        r@.len() > 0 && (r@[0] == '0' ==> n == 0 && r@.len() == 1),
{
    law_decimal_reads_back(n as nat);
}

/// `text_has_control` finds a control character wherever it stands.
pub proof fn law_text_has_control_looks_everywhere(s: &str, r: bool)
    requires
        call_ensures(text_has_control, (s,), r),
    ensures
        !r ==> forall|i: int| 0 <= i < s@.len() ==> !is_control(#[trigger] s@[i]),
        r ==> exists|i: int| 0 <= i < s@.len() && is_control(#[trigger] s@[i]),
{
}

} // verus!
