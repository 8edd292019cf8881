//! Characters, decimal numerals and small string helpers shared by the
//! parsers and the code generators.

use vstd::prelude::*;
use vstd::string::*;

verus! {

/// The characters that separate tokens and are trimmed from the ends of a
/// line: every character that Unicode gives the property of white space.
/// Those are the space, the controls from tab to carriage return and the
/// next-line control, the no-break spaces, the spaces of fixed width, the
/// line and the paragraph separator, and the ideographic space.
pub open spec fn is_space(c: char) -> bool {
    ||| c == ' '
    ||| ('\t' <= c && c <= '\r')
    ||| c == '\u{85}'
    ||| c == '\u{A0}'
    ||| c == '\u{1680}'
    ||| ('\u{2000}' <= c && c <= '\u{200A}')
    ||| c == '\u{2028}'
    ||| c == '\u{2029}'
    ||| c == '\u{202F}'
    ||| c == '\u{205F}'
    ||| c == '\u{3000}'
}

/// The ten decimal digits.
pub open spec fn is_digit(c: char) -> bool {
    '0' <= c && c <= '9'
}

/// The digit character that stands for `d`; `'0'` when `d` is not below ten.
pub open spec fn digit_char(d: nat) -> char {
    if d == 1 {
        '1'
    } else if d == 2 {
        '2'
    } else if d == 3 {
        '3'
    } else if d == 4 {
        '4'
    } else if d == 5 {
        '5'
    } else if d == 6 {
        '6'
    } else if d == 7 {
        '7'
    } else if d == 8 {
        '8'
    } else if d == 9 {
        '9'
    } else {
        '0'
    }
}

/// The value of a digit character.
pub open spec fn digit_value(c: char) -> nat {
    (c as nat - '0' as nat) as nat
}

/// The number that a string of digits denotes, most significant digit first.
pub open spec fn decimal_value(s: Seq<char>) -> nat
    decreases s.len(),
{
    if s.len() == 0 {
        0
    } else {
        decimal_value(s.drop_last()) * 10 + digit_value(s.last())
    }
}

/// The shortest decimal numeral of `n`.
pub open spec fn decimal(n: nat) -> Seq<char>
    decreases n,
{
    if n < 10 {
        seq![digit_char(n)]
    } else {
        decimal(n / 10).push(digit_char(n % 10))
    }
}

/// Whether every character of `s` is a decimal digit.
pub open spec fn all_digits(s: Seq<char>) -> bool {
    forall|i: int| 0 <= i < s.len() ==> is_digit(#[trigger] s[i])
}

/// A digit character denotes the digit it was made from.
pub proof fn lemma_digit_char(d: nat)
    requires
        d < 10,
    ensures
        is_digit(digit_char(d)),
        digit_value(digit_char(d)) == d,
{
}

/// A numeral consists of digits only, is not empty, and denotes its number.
pub proof fn lemma_decimal_round_trip(n: nat)
    ensures
        decimal(n).len() >= 1,
        all_digits(decimal(n)),
        decimal_value(decimal(n)) == n,
    decreases n,
{
    if n < 10 {
        lemma_digit_char(n);
        let s = decimal(n);
        assert(s.drop_last() =~= Seq::<char>::empty());
        assert(decimal_value(s.drop_last()) == 0);
    } else {
        lemma_decimal_round_trip(n / 10);
        lemma_digit_char(n % 10);
        let s = decimal(n);
        assert(s.drop_last() =~= decimal(n / 10));
    }
}

/// Different numbers have different numerals.
pub proof fn lemma_decimal_injective(a: nat, b: nat)
    requires
        decimal(a) == decimal(b),
    ensures
        a == b,
{
    lemma_decimal_round_trip(a);
    lemma_decimal_round_trip(b);
}

/// The one-character string of a digit.
fn digit_str(d: u32) -> (s: &'static str)
    requires
        d < 10,
    ensures
        s@ == seq![digit_char(d as nat)],
{
    proof {
        reveal_strlit("0");
        reveal_strlit("1");
        reveal_strlit("2");
        reveal_strlit("3");
        reveal_strlit("4");
        reveal_strlit("5");
        reveal_strlit("6");
        reveal_strlit("7");
        reveal_strlit("8");
        reveal_strlit("9");
    }
    let s = if d == 0 {
        "0"
    } else if d == 1 {
        "1"
    } else if d == 2 {
        "2"
    } else if d == 3 {
        "3"
    } else if d == 4 {
        "4"
    } else if d == 5 {
        "5"
    } else if d == 6 {
        "6"
    } else if d == 7 {
        "7"
    } else if d == 8 {
        "8"
    } else {
        "9"
    };
    assert(s@ =~= seq![digit_char(d as nat)]);
    s
}

/// Appends the decimal numeral of `n` to `out`.
pub fn push_decimal(out: &mut String, n: u32)
    ensures
        final(out)@ == old(out)@ + decimal(n as nat),
    decreases n,
{
    if n >= 10 {
        push_decimal(out, n / 10);
    }
    out.append(digit_str(n % 10));
    assert(final(out)@ =~= old(out)@ + decimal(n as nat));
}

/// The decimal numeral of `n` as a string.
pub fn decimal_string(n: u32) -> (s: String)
    ensures
        s@ == decimal(n as nat),
{
    let mut s = String::new();
    push_decimal(&mut s, n);
    assert(s@ =~= decimal(n as nat));
    s
}

/// The characters of a string, in order.
pub fn chars_of(s: &str) -> (v: Vec<char>)
    ensures
        v@ == s@,
{
    let mut v: Vec<char> = Vec::new();
    for c in it: s.chars()
        invariant
            v@ == it.seq().take(it.index() as int),
            it.seq() == s@,
    {
        assert(it.seq().take(it.index() + 1) =~= it.seq().take(it.index() as int).push(c));
        v.push(c);
    }
    assert(v@ =~= s@);
    v
}

/// The index of the first `//` in `s` at or after `from`; the length of `s`
/// when there is none.
pub open spec fn comment_start(s: Seq<char>, from: int) -> int
    decreases s.len() - from,
{
    if from < 0 || from + 1 >= s.len() {
        s.len() as int
    } else if s[from] == '/' && s[from + 1] == '/' {
        from
    } else {
        comment_start(s, from + 1)
    }
}

/// A line without its comment: what stands before the first `//`.
pub open spec fn strip_comment(s: Seq<char>) -> Seq<char> {
    s.take(comment_start(s, 0))
}

/// The index at or after `from` where the run of non-space characters that
/// starts at `from` ends.
pub open spec fn word_end(s: Seq<char>, from: int) -> int
    decreases s.len() - from,
{
    if from < 0 || from >= s.len() {
        s.len() as int
    } else if is_space(s[from]) {
        from
    } else {
        word_end(s, from + 1)
    }
}

/// The maximal runs of non-space characters of `s` from index `from` on, in
/// order, each as the pair of its first index and the index after its last.
pub open spec fn token_ranges(s: Seq<char>, from: int) -> Seq<(int, int)>
    decreases s.len() - from,
{
    if from < 0 || from >= s.len() {
        Seq::empty()
    } else if is_space(s[from]) {
        token_ranges(s, from + 1)
    } else {
        proof {
            lemma_word_end(s, from);
        }
        seq![(from, word_end(s, from))] + token_ranges(s, word_end(s, from))
    }
}

/// The tokens of `s`: its maximal runs of non-space characters, in order.
pub open spec fn tokens(s: Seq<char>) -> Seq<Seq<char>> {
    token_ranges(s, 0).map_values(|r: (int, int)| s.subrange(r.0, r.1))
}

/// Where a word ends: after its start, within the text, at a space or at the end.
pub proof fn lemma_word_end(s: Seq<char>, from: int)
    requires
        0 <= from < s.len(),
        !is_space(s[from]),
    ensures
        from < word_end(s, from) <= s.len(),
        forall|k: int| from <= k < word_end(s, from) ==> !is_space(#[trigger] s[k]),
        word_end(s, from) < s.len() ==> is_space(s[word_end(s, from)]),
    decreases s.len() - from,
{
    assert(word_end(s, from) == word_end(s, from + 1));
    if from + 1 >= s.len() {
        assert(word_end(s, from + 1) == s.len());
    } else if is_space(s[from + 1]) {
        assert(word_end(s, from + 1) == from + 1);
    } else {
        lemma_word_end(s, from + 1);
    }
}

/// Every token range lies within the text, is not empty and holds no space.
pub proof fn lemma_token_ranges(s: Seq<char>, from: int)
    requires
        0 <= from,
    ensures
        forall|i: int|
            0 <= i < token_ranges(s, from).len() ==> {
                let r = #[trigger] token_ranges(s, from)[i];
                &&& from <= r.0 < r.1 <= s.len()
                &&& forall|k: int| r.0 <= k < r.1 ==> !is_space(#[trigger] s[k])
            },
    decreases s.len() - from,
{
    if from >= s.len() {
        assert(token_ranges(s, from).len() == 0);
    } else if is_space(s[from]) {
        lemma_token_ranges(s, from + 1);
        assert(token_ranges(s, from) == token_ranges(s, from + 1));
    } else {
        lemma_word_end(s, from);
        let e = word_end(s, from);
        lemma_token_ranges(s, e);
        let all = token_ranges(s, from);
        assert(all == seq![(from, e)] + token_ranges(s, e));
        assert forall|i: int| 0 <= i < all.len() implies {
            let r = #[trigger] all[i];
            &&& from <= r.0 < r.1 <= s.len()
            &&& forall|k: int| r.0 <= k < r.1 ==> !is_space(#[trigger] s[k])
        } by {
            if i > 0 {
                assert(all[i] == token_ranges(s, e)[i - 1]);
            }
        }
    }
}

/// Whether a character separates tokens.
pub fn char_is_space(c: char) -> (b: bool)
    ensures
        b == is_space(c),
{
    c == ' ' || (c >= '\t' && c <= '\r') || c == '\u{85}' || c == '\u{A0}' || c == '\u{1680}' || (c
        >= '\u{2000}' && c <= '\u{200A}') || c == '\u{2028}' || c == '\u{2029}' || c == '\u{202F}'
        || c == '\u{205F}' || c == '\u{3000}'
}

/// Finds where the comment of a line starts.
pub fn find_comment(s: &Vec<char>) -> (at: usize)
    ensures
        at == comment_start(s@, 0),
        at <= s@.len(),
{
    let n = s.len();
    if n < 2 {
        return n;
    }
    let mut i: usize = 0;
    while i < n - 1
        invariant
            n == s@.len(),
            n >= 2,
            comment_start(s@, 0) == comment_start(s@, i as int),
            i <= n - 1,
        decreases n - i,
    {
        if s[i] == '/' && s[i + 1] == '/' {
            return i;
        }
        i = i + 1;
    }
    s.len()
}

/// Splits the first `limit` characters of `s` into tokens.
pub fn split_tokens(s: &Vec<char>, limit: usize) -> (out: Vec<(usize, usize)>)
    requires
        limit <= s@.len(),
    ensures
        out@.len() == token_ranges(s@.take(limit as int), 0).len(),
        forall|i: int|
            0 <= i < out@.len() ==> {
                &&& (#[trigger] out@[i]).0 as int == token_ranges(s@.take(limit as int), 0)[i].0
                &&& out@[i].1 as int == token_ranges(s@.take(limit as int), 0)[i].1
                &&& out@[i].0 < out@[i].1 <= limit
            },
{
    let ghost t = s@.take(limit as int);
    let mut out: Vec<(usize, usize)> = Vec::new();
    let mut i: usize = 0;
    proof {
        lemma_token_ranges(t, 0);
    }
    while i < limit
        invariant
            i <= limit <= s@.len(),
            t == s@.take(limit as int),
            token_ranges(t, 0).len() == out@.len() + token_ranges(t, i as int).len(),
            forall|k: int|
                0 <= k < out@.len() ==> {
                    &&& (#[trigger] out@[k]).0 as int == token_ranges(t, 0)[k].0
                    &&& out@[k].1 as int == token_ranges(t, 0)[k].1
                    &&& out@[k].0 < out@[k].1 <= limit
                },
            forall|k: int|
                0 <= k < token_ranges(t, i as int).len() ==> #[trigger] token_ranges(t, i as int)[k]
                    == token_ranges(t, 0)[out@.len() + k],
        decreases limit - i,
    {
        if char_is_space(s[i]) {
            i = i + 1;
        } else {
            let start = i;
            proof {
                lemma_word_end(t, start as int);
            }
            while i < limit && !char_is_space(s[i])
                invariant
                    start <= i <= limit <= s@.len(),
                    t == s@.take(limit as int),
                    word_end(t, start as int) == word_end(t, i as int),
                    start < word_end(t, start as int) <= limit,
                decreases limit - i,
            {
                i = i + 1;
            }
            let ghost rest_before = token_ranges(t, start as int);
            let ghost rest_after = token_ranges(t, i as int);
            assert(i == word_end(t, start as int));
            assert(rest_before == seq![(start as int, i as int)] + rest_after);
            assert(rest_before[0] == (start as int, i as int));
            assert forall|k: int| 0 <= k < rest_after.len() implies #[trigger] rest_after[k]
                == token_ranges(t, 0)[out@.len() + 1 + k] by {
                assert(rest_after[k] == rest_before[k + 1]);
            }
            out.push((start, i));
        }
    }
    out
}

/// Whether the characters of `s` from `from` up to `to` spell `word`.
pub fn range_is(s: &Vec<char>, from: usize, to: usize, word: &str) -> (b: bool)
    requires
        from <= to <= s@.len(),
    ensures
        b == (s@.subrange(from as int, to as int) == word@),
{
    let w = chars_of(word);
    if w.len() != to - from {
        assert(s@.subrange(from as int, to as int).len() != word@.len());
        return false;
    }
    let mut i: usize = 0;
    while i < w.len()
        invariant
            from <= to <= s@.len(),
            w@.len() == to - from,
            w@ == word@,
            i <= w@.len(),
            forall|k: int| 0 <= k < i ==> s@[from + k] == w@[k],
        decreases w@.len() - i,
    {
        if s[from + i] != w[i] {
            assert(s@.subrange(from as int, to as int)[i as int] != w@[i as int]);
            return false;
        }
        i = i + 1;
    }
    assert(s@.subrange(from as int, to as int) =~= w@);
    true
}

/// A numeral without the `+` that may stand before its digits.
pub open spec fn unsigned_digits(s: Seq<char>) -> Seq<char> {
    if s.len() > 0 && s[0] == '+' {
        s.skip(1)
    } else {
        s
    }
}

/// Whether `s` is a non-negative integer that fits 32 bits: one or more
/// decimal digits, after at most one `+`.
pub open spec fn is_u32_literal(s: Seq<char>) -> bool {
    &&& unsigned_digits(s).len() > 0
    &&& all_digits(unsigned_digits(s))
    &&& decimal_value(unsigned_digits(s)) <= u32::MAX
}

/// The number that such a literal denotes.
pub open spec fn u32_literal_value(s: Seq<char>) -> nat {
    decimal_value(unsigned_digits(s))
}

/// The value of a string of digits is at least the value of each prefix.
pub proof fn lemma_decimal_value_prefix(s: Seq<char>, k: int)
    requires
        0 <= k <= s.len(),
    ensures
        decimal_value(s.take(k)) <= decimal_value(s),
    decreases s.len() - k,
{
    if k < s.len() {
        lemma_decimal_value_prefix(s, k + 1);
        assert(s.take(k + 1).drop_last() =~= s.take(k));
    } else {
        assert(s.take(k) =~= s);
    }
}

/// Reads the characters of `s` from `from` up to `to` as a non-negative integer.
pub fn parse_u32(s: &Vec<char>, from: usize, to: usize) -> (r: Option<u32>)
    requires
        from <= to <= s@.len(),
    ensures
        r == if is_u32_literal(s@.subrange(from as int, to as int)) {
            Some(u32_literal_value(s@.subrange(from as int, to as int)) as u32)
        } else {
            None::<u32>
        },
{
    let ghost text = s@.subrange(from as int, to as int);
    let start = if from < to && s[from] == '+' {
        from + 1
    } else {
        from
    };
    let ghost digits = unsigned_digits(text);
    assert(digits =~= s@.subrange(start as int, to as int));
    if start == to {
        return None;
    }
    let mut acc: u32 = 0;
    let mut i: usize = start;
    assert(digits.take(0) =~= Seq::<char>::empty());
    while i < to
        invariant
            from <= start <= i <= to <= s@.len(),
            digits == s@.subrange(start as int, to as int),
            digits == unsigned_digits(s@.subrange(from as int, to as int)),
            all_digits(digits.take(i - start)),
            acc == decimal_value(digits.take(i - start)),
        decreases to - i,
    {
        let c = s[i];
        let ghost next = digits.take(i - start + 1);
        assert(next.drop_last() =~= digits.take(i - start));
        assert(next.last() == c);
        if !(c >= '0' && c <= '9') {
            assert(!is_digit(digits[i - start]));
            return None;
        }
        let d: u32 = c as u32 - '0' as u32;
        assert(d == digit_value(c));
        if acc > (u32::MAX - d) / 10 {
            proof {
                assert(decimal_value(next) > u32::MAX);
                lemma_decimal_value_prefix(digits, i - start + 1);
            }
            return None;
        }
        acc = acc * 10 + d;
        assert forall|k: int| 0 <= k < next.len() implies is_digit(#[trigger] next[k]) by {
            if k < next.len() - 1 {
                assert(next[k] == digits.take(i - start)[k]);
            }
        }
        i = i + 1;
    }
    assert(digits.take(to - start) =~= digits);
    Some(acc)
}

/// The greatest index below `upto` at which `s` holds `c`; `-1` when there
/// is none.
pub open spec fn last_index_of(s: Seq<char>, c: char, upto: int) -> int
    decreases upto,
{
    if upto <= 0 || upto > s.len() {
        -1
    } else if s[upto - 1] == c {
        upto - 1
    } else {
        last_index_of(s, c, upto - 1)
    }
}

/// A path without its directories: what follows the last `/`.
pub open spec fn base_name(path: Seq<char>) -> Seq<char> {
    path.skip(last_index_of(path, '/', path.len() as int) + 1)
}

/// A file name without its directories and its extension: the base name up
/// to its last `.`, or all of it where it has no `.` after its first
/// character.
pub open spec fn file_stem(path: Seq<char>) -> Seq<char> {
    let base = base_name(path);
    let dot = last_index_of(base, '.', base.len() as int);
    if dot > 0 {
        base.take(dot)
    } else {
        base
    }
}

/// Finds where `c` stands last among the characters of `s` from `from` on:
/// the index after it, or `from` when it does not occur.
fn after_last(s: &Vec<char>, c: char, from: usize) -> (r: usize)
    requires
        from <= s@.len(),
    ensures
        from <= r <= s@.len(),
        r - from == last_index_of(s@.skip(from as int), c, s@.len() - from) + 1,
{
    let ghost t = s@.skip(from as int);
    let mut i: usize = s.len();
    while i > from
        invariant
            from <= i <= s@.len(),
            t == s@.skip(from as int),
            last_index_of(t, c, s@.len() - from) == last_index_of(t, c, i - from),
        decreases i,
    {
        if s[i - 1] == c {
            assert(t[i - 1 - from] == c);
            return i;
        }
        assert(t[i - 1 - from] != c);
        i = i - 1;
    }
    from
}

/// The stem of a file name, as a string.
pub fn file_stem_of(path: &str) -> (stem: String)
    ensures
        stem@ == file_stem(path@),
{
    let chars = chars_of(path);
    let start = after_last(&chars, '/', 0);
    assert(chars@.skip(0) =~= chars@);
    let dot_end = after_last(&chars, '.', start);
    let ghost base = base_name(path@);
    assert(base == chars@.skip(start as int));
    let end = if dot_end - start > 1 {
        dot_end - 1
    } else {
        chars.len()
    };
    assert(path@.subrange(start as int, end as int) =~= file_stem(path@));
    String::from_str(path.substring_char(start, end))
}

/// Whether all of `s` spells `word`.
pub fn spells(s: &Vec<char>, word: &str) -> (b: bool)
    ensures
        b == (s@ == word@),
{
    assert(s@.subrange(0, s@.len() as int) =~= s@);
    range_is(s, 0, s.len(), word)
}

/// Whether `c` occurs nowhere in `s`.
pub open spec fn lacks(s: Seq<char>, c: char) -> bool {
    forall|i: int| 0 <= i < s.len() ==> #[trigger] s[i] != c
}

/// A text that ends in a separator and a part without that separator can be
/// taken apart in one way only.
pub proof fn lemma_split_at_last(
    head1: Seq<char>,
    tail1: Seq<char>,
    head2: Seq<char>,
    tail2: Seq<char>,
    c: char,
)
    requires
        lacks(tail1, c),
        lacks(tail2, c),
        head1 + seq![c] + tail1 == head2 + seq![c] + tail2,
    ensures
        head1 == head2,
        tail1 == tail2,
{
    let whole1 = head1 + seq![c] + tail1;
    let whole2 = head2 + seq![c] + tail2;
    assert(whole1.len() == head1.len() + 1 + tail1.len());
    assert(whole2.len() == head2.len() + 1 + tail2.len());
    if head1.len() < head2.len() {
        assert(whole2[head2.len() as int] == c);
        assert(whole1[head2.len() as int] == tail1[head2.len() - head1.len() - 1]);
        assert(false);
    }
    if head2.len() < head1.len() {
        assert(whole1[head1.len() as int] == c);
        assert(whole2[head1.len() as int] == tail2[head1.len() - head2.len() - 1]);
        assert(false);
    }
    assert forall|i: int| 0 <= i < head1.len() implies head1[i] == head2[i] by {
        assert(whole1[i] == head1[i]);
        assert(whole2[i] == head2[i]);
    }
    assert(head1 =~= head2);
    assert forall|i: int| 0 <= i < tail1.len() implies tail1[i] == tail2[i] by {
        assert(whole1[head1.len() + 1 + i] == tail1[i]);
        assert(whole2[head2.len() + 1 + i] == tail2[i]);
    }
    assert(tail1 =~= tail2);
}

/// A numeral holds no character that is not a digit.
pub proof fn lemma_decimal_lacks(n: nat, c: char)
    requires
        !is_digit(c),
    ensures
        lacks(decimal(n), c),
{
    lemma_decimal_round_trip(n);
}

/// Two texts with the same beginning are equal only where the rest is equal.
pub proof fn lemma_same_prefix(prefix: Seq<char>, a: Seq<char>, b: Seq<char>)
    requires
        prefix + a == prefix + b,
    ensures
        a == b,
{
    assert((prefix + a).len() == prefix.len() + a.len());
    assert((prefix + b).len() == prefix.len() + b.len());
    assert forall|i: int| 0 <= i < a.len() implies a[i] == b[i] by {
        assert((prefix + a)[prefix.len() + i] == a[i]);
        assert((prefix + b)[prefix.len() + i] == b[i]);
    }
    assert(a =~= b);
}

/// The number of spaces at the start of `s`.
pub open spec fn leading_spaces(s: Seq<char>) -> nat
    decreases s.len(),
{
    if s.len() > 0 && is_space(s[0]) {
        1 + leading_spaces(s.drop_first())
    } else {
        0
    }
}

/// The number of spaces at the end of `s`.
pub open spec fn trailing_spaces(s: Seq<char>) -> nat
    decreases s.len(),
{
    if s.len() > 0 && is_space(s.last()) {
        1 + trailing_spaces(s.drop_last())
    } else {
        0
    }
}

/// `s` without the spaces at its start and at its end.
pub open spec fn trimmed(s: Seq<char>) -> Seq<char> {
    let rest = s.skip(leading_spaces(s) as int);
    rest.take(rest.len() - trailing_spaces(rest))
}

/// Finds what is left of the characters of `s` from `from` up to `to` when
/// the spaces at both ends are taken away.
pub fn trim_range(s: &Vec<char>, from: usize, to: usize) -> (r: (usize, usize))
    requires
        from <= to <= s@.len(),
    ensures
        from <= r.0 <= r.1 <= to,
        r.0 - from == leading_spaces(s@.subrange(from as int, to as int)),
        to - r.1 == trailing_spaces(s@.subrange(r.0 as int, to as int)),
        s@.subrange(r.0 as int, r.1 as int) == trimmed(s@.subrange(from as int, to as int)),
{
    let ghost whole = s@.subrange(from as int, to as int);
    let mut a: usize = from;
    while a < to && char_is_space(s[a])
        invariant
            from <= a <= to <= s@.len(),
            leading_spaces(s@.subrange(from as int, to as int)) == (a - from) + leading_spaces(
                s@.subrange(a as int, to as int),
            ),
        decreases to - a,
    {
        assert(s@.subrange(a as int, to as int).drop_first() =~= s@.subrange(a + 1, to as int));
        a = a + 1;
    }
    assert(leading_spaces(whole) == a - from) by {
        if a < to {
            assert(s@.subrange(a as int, to as int)[0] == s@[a as int]);
        }
    }
    let ghost rest = s@.subrange(a as int, to as int);
    assert(whole.skip((a - from) as int) =~= rest);
    let mut e: usize = to;
    while e > a && char_is_space(s[e - 1])
        invariant
            a <= e <= to <= s@.len(),
            trailing_spaces(s@.subrange(a as int, to as int)) == (to - e) + trailing_spaces(
                s@.subrange(a as int, e as int),
            ),
        decreases e,
    {
        assert(s@.subrange(a as int, e as int).drop_last() =~= s@.subrange(a as int, e - 1));
        e = e - 1;
    }
    assert(trailing_spaces(rest) == to - e) by {
        if e > a {
            assert(s@.subrange(a as int, e as int).last() == s@[e - 1]);
        }
    }
    assert(s@.subrange(a as int, e as int) =~= rest.take(rest.len() - (to - e)));
    (a, e)
}

/// The first index at or after `from` at which `s` holds `c`; the length of
/// `s` when there is none.
pub open spec fn index_of(s: Seq<char>, c: char, from: int) -> int
    decreases s.len() - from,
{
    if from < 0 || from >= s.len() {
        s.len() as int
    } else if s[from] == c {
        from
    } else {
        index_of(s, c, from + 1)
    }
}

/// Whether `c` occurs in `s`.
pub open spec fn has_char(s: Seq<char>, c: char) -> bool {
    index_of(s, c, 0) < s.len()
}

/// Finds `c` among the characters of `s` from `from` up to `to`: the index
/// of the first, or `to`.
pub fn find_char(s: &Vec<char>, c: char, from: usize, to: usize) -> (at: usize)
    requires
        from <= to <= s@.len(),
    ensures
        from <= at <= to,
        at - from == index_of(s@.subrange(from as int, to as int), c, 0),
{
    let ghost t = s@.subrange(from as int, to as int);
    let mut i: usize = from;
    while i < to
        invariant
            from <= i <= to <= s@.len(),
            t == s@.subrange(from as int, to as int),
            index_of(t, c, 0) == index_of(t, c, i - from),
        decreases to - i,
    {
        if s[i] == c {
            return i;
        }
        i = i + 1;
    }
    to
}

/// Whether `s` is a word: not empty, and without a space or a `/`.
pub open spec fn is_word_text(s: Seq<char>) -> bool {
    &&& s.len() > 0
    &&& forall|i: int| 0 <= i < s.len() ==> !is_space(#[trigger] s[i]) && s[i] != '/'
}

/// A numeral is a word.
pub proof fn lemma_decimal_is_word(n: nat)
    ensures
        is_word_text(decimal(n)),
{
    lemma_decimal_round_trip(n);
    assert forall|i: int| 0 <= i < decimal(n).len() implies !is_space(#[trigger] decimal(n)[i])
        && decimal(n)[i] != '/' by {
        assert(is_digit(decimal(n)[i]));
    }
}

/// A run of characters that are no spaces, up to a space or the end, is
/// one word.
pub proof fn lemma_word_end_is(s: Seq<char>, from: int, end: int)
    requires
        0 <= from < end <= s.len(),
        forall|k: int| from <= k < end ==> !is_space(#[trigger] s[k]),
        end < s.len() ==> is_space(s[end]),
    ensures
        word_end(s, from) == end,
    decreases end - from,
{
    if from + 1 < end {
        lemma_word_end_is(s, from + 1, end);
    } else {
        assert(word_end(s, from) == word_end(s, from + 1));
    }
}

/// A text without `/` has no comment.
pub proof fn lemma_no_comment(s: Seq<char>, from: int)
    requires
        0 <= from,
        lacks(s, '/'),
    ensures
        comment_start(s, from) == s.len(),
    decreases s.len() - from,
{
    if from + 1 < s.len() {
        lemma_no_comment(s, from + 1);
    }
}

/// Three words with one space between them are three tokens.
pub proof fn lemma_three_words(a: Seq<char>, b: Seq<char>, c: Seq<char>)
    requires
        is_word_text(a),
        is_word_text(b),
        is_word_text(c),
    ensures
        strip_comment(a + seq![' '] + b + seq![' '] + c) == a + seq![' '] + b + seq![' '] + c,
        tokens(a + seq![' '] + b + seq![' '] + c) == seq![a, b, c],
{
    let s = a + seq![' '] + b + seq![' '] + c;
    let la = a.len() as int;
    let lb = b.len() as int;
    let lc = c.len() as int;
    assert(s.len() == la + lb + lc + 2);
    assert forall|i: int| 0 <= i < la implies s[i] == a[i] by {}
    assert(s[la] == ' ');
    assert forall|i: int| 0 <= i < lb implies s[la + 1 + i] == b[i] by {}
    assert(s[la + 1 + lb] == ' ');
    assert forall|i: int| 0 <= i < lc implies s[la + lb + 2 + i] == c[i] by {}
    assert forall|k: int| 0 <= k < s.len() implies #[trigger] s[k] != '/' by {
        if k < la {
            assert(s[k] == a[k]);
        } else if k == la {
        } else if k < la + 1 + lb {
            assert(s[k] == b[k - la - 1]);
        } else if k == la + 1 + lb {
        } else {
            assert(s[k] == c[k - la - lb - 2]);
        }
    }
    lemma_no_comment(s, 0);
    assert(strip_comment(s) =~= s);
    assert forall|k: int| 0 <= k < la implies !is_space(#[trigger] s[k]) by {
        assert(s[k] == a[k]);
    }
    lemma_word_end_is(s, 0, la);
    assert forall|k: int| la + 1 <= k < la + 1 + lb implies !is_space(#[trigger] s[k]) by {
        assert(s[k] == b[k - la - 1]);
    }
    lemma_word_end_is(s, la + 1, la + 1 + lb);
    assert forall|k: int| la + lb + 2 <= k < s.len() implies !is_space(#[trigger] s[k]) by {
        assert(s[k] == c[k - la - lb - 2]);
    }
    lemma_word_end_is(s, la + lb + 2, s.len() as int);
    assert(token_ranges(s, s.len() as int) =~= Seq::<(int, int)>::empty());
    assert(token_ranges(s, la + lb + 2) =~= seq![(la + lb + 2, s.len() as int)]);
    assert(token_ranges(s, la + lb + 1) == token_ranges(s, la + lb + 2));
    assert(token_ranges(s, la + 1) =~= seq![(la + 1, la + 1 + lb), (la + lb + 2, s.len() as int)]);
    assert(token_ranges(s, la) == token_ranges(s, la + 1));
    assert(token_ranges(s, 0) =~= seq![
        (0int, la),
        (la + 1, la + 1 + lb),
        (la + lb + 2, s.len() as int),
    ]);
    assert(s.subrange(0, la) =~= a);
    assert(s.subrange(la + 1, la + 1 + lb) =~= b);
    assert(s.subrange(la + lb + 2, s.len() as int) =~= c);
    assert(tokens(s) =~= seq![a, b, c]);
}

} // verus!
