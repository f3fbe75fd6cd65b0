//! Text as sequences of characters: the lines of a text and the words of
//! a line, integers read and written in base ten.

use vstd::prelude::*;

verus! {

/// The characters of `s`, in order.
pub fn chars_of(s: &str) -> (v: Vec<char>)
    ensures
        v@ == s@,
{
    let mut v: Vec<char> = Vec::new();
    for c in it: s.chars()
        invariant
            v@ == it.history(),
    {
        v.push(c);
    }
    v
}

/// Whether two strings hold the same characters.
pub fn str_eq(a: &str, b: &str) -> (same: bool)
    ensures
        same == (a@ == b@),
{
    let x = a.to_owned();
    let y = b.to_owned();
    String::eq(&x, &y)
}

/// The decimal digits `0` to `9`.
pub open spec fn is_digit(c: char) -> bool {
    '0' <= c && c <= '9'
}

/// The number that a decimal digit stands for.
pub open spec fn digit_value(c: char) -> int {
    c as int - '0' as int
}

/// Whether every character of `s` is a decimal digit.
pub open spec fn all_digits(s: Seq<char>) -> bool {
    forall|i: int| 0 <= i < s.len() ==> is_digit(#[trigger] s[i])
}

/// The number written by a sequence of decimal digits, most significant
/// digit first; the empty sequence writes zero.
pub open spec fn digits_value(s: Seq<char>) -> int
    decreases s.len(),
{
    if s.len() == 0 {
        0
    } else {
        10 * digits_value(s.drop_last()) + digit_value(s.last())
    }
}

/// Whether `s` begins with a sign.
pub open spec fn has_sign(s: Seq<char>) -> bool {
    s.len() > 0 && (s[0] == '-' || s[0] == '+')
}

/// The digits of a literal: `s` without its sign.
pub open spec fn unsigned_part(s: Seq<char>) -> Seq<char> {
    if has_sign(s) {
        s.drop_first()
    } else {
        s
    }
}

/// The mathematical integer that `s` writes, taking every character
/// after an optional sign as a digit.
pub open spec fn signed_value(s: Seq<char>) -> int {
    if s.len() > 0 && s[0] == '-' {
        -digits_value(unsigned_part(s))
    } else {
        digits_value(unsigned_part(s))
    }
}

/// The integer literal that `s` writes, if it writes one: an optional
/// `+` or `-`, then one or more decimal digits, the whole within the
/// range of a signed 64-bit integer.
pub open spec fn int_literal(s: Seq<char>) -> Option<i64> {
    if unsigned_part(s).len() > 0 && all_digits(unsigned_part(s)) && i64::MIN <= signed_value(s)
        <= i64::MAX {
        Some(signed_value(s) as i64)
    } else {
        None
    }
}

/// Digits write non-negative numbers.
pub proof fn lemma_digits_value_nonnegative(s: Seq<char>)
    requires
        all_digits(s),
    ensures
        digits_value(s) >= 0,
    decreases s.len(),
{
    if s.len() > 0 {
        lemma_digits_value_nonnegative(s.drop_last());
    }
}

/// A prefix of a digit sequence writes a number no larger than the whole.
pub proof fn lemma_digits_value_prefix(s: Seq<char>, k: int)
    requires
        all_digits(s),
        0 <= k <= s.len(),
    ensures
        0 <= digits_value(s.take(k)) <= digits_value(s),
    decreases s.len() - k,
{
    lemma_digits_value_nonnegative(s.take(k));
    if k == s.len() {
        assert(s.take(k) =~= s);
    } else {
        lemma_digits_value_prefix(s, k + 1);
        assert(s.take(k + 1).drop_last() =~= s.take(k));
    }
}

/// Reads an integer literal.
pub fn parse_decimal(s: &Vec<char>) -> (r: Option<i64>)
    ensures
        r == int_literal(s@),
{
    let n = s.len();
    if n == 0 {
        return None;
    }
    let negative = s[0] == '-';
    let start: usize = if s[0] == '-' || s[0] == '+' {
        1
    } else {
        0
    };
    let ghost digits = unsigned_part(s@);
    assert(digits =~= s@.subrange(start as int, n as int));
    if start == n {
        return None;
    }
    let mut acc: i64 = 0;
    let mut i: usize = start;
    assert(digits.take(0) =~= Seq::<char>::empty());
    while i < n
        invariant
            start <= i <= n,
            n == s@.len(),
            digits == s@.subrange(start as int, n as int),
            digits == unsigned_part(s@),
            negative == (s@[0] == '-'),
            all_digits(digits.take(i - start)),
            acc == if negative {
                -digits_value(digits.take(i - start))
            } else {
                digits_value(digits.take(i - start))
            },
        decreases n - i,
    {
        let c = s[i];
        let ghost k = i - start;
        assert(digits[k] == c);
        if !(c >= '0' && c <= '9') {
            assert(!is_digit(digits[k]));
            return None;
        }
        let d: i64 = (c as u32 - '0' as u32) as i64;
        proof {
            assert(digits.take(k + 1).drop_last() =~= digits.take(k));
            assert(digits.take(k + 1).last() == c);
            assert(all_digits(digits.take(k + 1))) by {
                assert forall|j: int| 0 <= j < k + 1 implies is_digit(
                    #[trigger] digits.take(k + 1)[j],
                ) by {
                    if j < k {
                        assert(digits.take(k)[j] == digits.take(k + 1)[j]);
                    }
                }
            }
            lemma_digits_value_nonnegative(digits.take(k));
            if all_digits(digits) {
                lemma_digits_value_prefix(digits, k + 1);
            }
        }
        let scaled = match acc.checked_mul(10) {
            Some(m) => m,
            None => {
                return None;
            },
        };
        let next = if negative {
            scaled.checked_sub(d)
        } else {
            scaled.checked_add(d)
        };
        match next {
            Some(v) => {
                acc = v;
            },
            None => {
                return None;
            },
        }
        i = i + 1;
    }
    assert(digits.take(n - start) =~= digits);
    Some(acc)
}


/// ASCII whitespace: space, tab, line feed, form feed, carriage return.
pub open spec fn is_space(c: char) -> bool {
    c == ' ' || c == '\t' || c == '\n' || c == '\x0C' || c == '\r'
}

/// Tests a character for ASCII whitespace.
pub fn is_space_char(c: char) -> (b: bool)
    ensures
        b == is_space(c),
{
    c == ' ' || c == '\t' || c == '\n' || c == '\x0C' || c == '\r'
}

/// Where the run of characters that starts at `from` ends: the first
/// position at or after `from` whose character is whitespace when
/// `blank` is false, or is not whitespace when `blank` is true, and the
/// length of `s` if there is none.
pub open spec fn run_end(s: Seq<char>, from: int, blank: bool) -> int
    decreases s.len() - from,
{
    if 0 <= from < s.len() && is_space(s[from]) == blank {
        run_end(s, from + 1, blank)
    } else {
        from
    }
}

/// A run ends at or after its start, within the text, and every
/// character of it is of the run's kind.
pub proof fn lemma_run_end(s: Seq<char>, from: int, blank: bool)
    requires
        0 <= from <= s.len(),
    ensures
        from <= run_end(s, from, blank) <= s.len(),
        forall|i: int| from <= i < run_end(s, from, blank) ==> is_space(#[trigger] s[i]) == blank,
        run_end(s, from, blank) < s.len() ==> is_space(s[run_end(s, from, blank)]) != blank,
    decreases s.len() - from,
{
    if from < s.len() && is_space(s[from]) == blank {
        lemma_run_end(s, from + 1, blank);
    }
}

/// The words of `s` that start at or after `from`: the maximal runs of
/// characters that are not whitespace, in order.
pub open spec fn words_from(s: Seq<char>, from: int) -> Seq<Seq<char>>
    decreases s.len() - from,
    via words_from_decreases
{
    let start = run_end(s, from, true);
    if 0 <= from <= start < s.len() {
        let stop = run_end(s, start, false);
        seq![s.subrange(start, stop)] + words_from(s, stop)
    } else {
        Seq::empty()
    }
}

#[via_fn]
proof fn words_from_decreases(s: Seq<char>, from: int) {
    let start = run_end(s, from, true);
    if 0 <= from <= start < s.len() {
        lemma_run_end(s, from, true);
        lemma_run_end(s, start + 1, false);
    }
}

/// The words of a line.
pub open spec fn words(s: Seq<char>) -> Seq<Seq<char>> {
    words_from(s, 0)
}

/// The character sequences that a list of string slices holds.
pub open spec fn texts(v: Seq<&str>) -> Seq<Seq<char>> {
    v.map_values(|t: &str| t@)
}

/// Splits a line into its words.
pub fn split_words<'a>(line: &'a str) -> (out: Vec<&'a str>)
    ensures
        texts(out@) == words(line@),
{
    let chars = chars_of(line);
    let n = chars.len();
    let mut out: Vec<&'a str> = Vec::new();
    let mut i: usize = 0;
    assert(texts(out@) + words_from(line@, 0) =~= words(line@));
    while i < n
        invariant
            i <= n,
            n == line@.len(),
            chars@ == line@,
            texts(out@) + words_from(line@, i as int) == words(line@),
        decreases n - i,
    {
        if is_space_char(chars[i]) {
            proof {
                lemma_run_end(line@, i + 1, true);
            }
            i = i + 1;
        } else {
            let start = i;
            let mut j: usize = i + 1;
            while j < n && !is_space_char(chars[j])
                invariant
                    start < j <= n,
                    n == line@.len(),
                    chars@ == line@,
                    run_end(line@, start as int, false) == run_end(line@, j as int, false),
                decreases n - j,
            {
                j = j + 1;
            }
            let word = line.substring_char(start, j);
            proof {
                let rest = words_from(line@, j as int);
                assert(words_from(line@, start as int) == seq![word@] + rest);
                assert(texts(out@.push(word)) =~= texts(out@) + seq![word@]);
                assert(texts(out@.push(word)) + rest =~= texts(out@) + (seq![word@] + rest));
            }
            out.push(word);
            i = j;
        }
    }
    assert(texts(out@) + words_from(line@, n as int) =~= texts(out@));
    out
}


/// Where the line that starts at `from` ends: the position of the next
/// line feed at or after `from`, and the length of `s` if there is none.
pub open spec fn line_end(s: Seq<char>, from: int) -> int
    decreases s.len() - from,
{
    if 0 <= from < s.len() && s[from] != '\n' {
        line_end(s, from + 1)
    } else {
        from
    }
}

/// A line ends at or after its start, within the text, and holds no
/// line feed.
pub proof fn lemma_line_end(s: Seq<char>, from: int)
    requires
        0 <= from <= s.len(),
    ensures
        from <= line_end(s, from) <= s.len(),
        forall|i: int| from <= i < line_end(s, from) ==> #[trigger] s[i] != '\n',
        line_end(s, from) < s.len() ==> s[line_end(s, from)] == '\n',
    decreases s.len() - from,
{
    if from < s.len() && s[from] != '\n' {
        lemma_line_end(s, from + 1);
    }
}

/// The lines of `s` that start at or after `from`. Lines are separated
/// by line feeds, which belong to no line; a line feed at the very end
/// of the text opens no further line. A carriage return stays in its
/// line, where it counts as whitespace.
pub open spec fn lines_from(s: Seq<char>, from: int) -> Seq<Seq<char>>
    decreases s.len() + 1 - from,
    via lines_from_decreases
{
    if 0 <= from < s.len() {
        let stop = line_end(s, from);
        seq![s.subrange(from, stop)] + lines_from(s, stop + 1)
    } else {
        Seq::empty()
    }
}

#[via_fn]
proof fn lines_from_decreases(s: Seq<char>, from: int) {
    if 0 <= from < s.len() {
        lemma_line_end(s, from);
    }
}

/// The lines of a text.
pub open spec fn lines(s: Seq<char>) -> Seq<Seq<char>> {
    lines_from(s, 0)
}

/// Finds the end of the line that starts at `from`.
pub fn find_line_end(chars: &Vec<char>, from: usize) -> (stop: usize)
    ensures
        stop == line_end(chars@, from as int),
        from <= stop,
        from <= chars@.len() ==> stop <= chars@.len(),
{
    let n = chars.len();
    let mut j: usize = from;
    while j < n && chars[j] != '\n'
        invariant
            from <= j,
            from <= n ==> j <= n,
            n == chars@.len(),
            line_end(chars@, from as int) == line_end(chars@, j as int),
        decreases n - j,
    {
        j = j + 1;
    }
    j
}

/// The decimal digit that stands for `d`, for `d` from 0 to 9.
pub open spec fn digit_char(d: int) -> char {
    seq!['0', '1', '2', '3', '4', '5', '6', '7', '8', '9'][d]
}

/// A natural number in base ten, without leading zeros.
pub open spec fn nat_text(n: nat) -> Seq<char>
    decreases n,
{
    if n < 10 {
        seq![digit_char(n as int)]
    } else {
        nat_text(n / 10).push(digit_char((n % 10) as int))
    }
}

/// An integer in base ten: a minus sign if it is negative, then its
/// magnitude.
pub open spec fn int_text(n: int) -> Seq<char> {
    if n < 0 {
        seq!['-'] + nat_text((-n) as nat)
    } else {
        nat_text(n as nat)
    }
}

/// The string that holds one decimal digit.
fn digit_str(d: u64) -> (s: &'static str)
    requires
        d < 10,
    ensures
        s@ == seq![digit_char(d as int)],
{
    proof {
        reveal_strlit("0");
        reveal_strlit("1");
        reveal_strlit("2");
        reveal_strlit("3");
        reveal_strlit("4");
        reveal_strlit("5");
        reveal_strlit("6");
        reveal_strlit("7");
        reveal_strlit("8");
        reveal_strlit("9");
    }
    let s = if d == 0 {
        "0"
    } else if d == 1 {
        "1"
    } else if d == 2 {
        "2"
    } else if d == 3 {
        "3"
    } else if d == 4 {
        "4"
    } else if d == 5 {
        "5"
    } else if d == 6 {
        "6"
    } else if d == 7 {
        "7"
    } else if d == 8 {
        "8"
    } else {
        "9"
    };
    assert(s@ =~= seq![digit_char(d as int)]);
    s
}

/// Appends a natural number in base ten.
fn push_nat(out: &mut String, n: u64)
    ensures
        final(out)@ == old(out)@ + nat_text(n as nat),
    decreases n,
{
    if n >= 10 {
        push_nat(out, n / 10);
    }
    out.append(digit_str(n % 10));
    assert(out@ =~= old(out)@ + nat_text(n as nat));
}

/// Writes an integer in base ten.
pub fn int_to_text(n: i64) -> (s: String)
    ensures
        s@ == int_text(n as int),
{
    let mut s = String::new();
    if n < 0 {
        proof {
            reveal_strlit("-");
        }
        s.append("-");
        let magnitude: u64 = if n == i64::MIN {
            9223372036854775808u64
        } else {
            (-n) as u64
        };
        push_nat(&mut s, magnitude);
        assert(s@ =~= int_text(n as int));
    } else {
        push_nat(&mut s, n as u64);
        assert(s@ =~= int_text(n as int));
    }
    s
}


/// A natural number written in base ten consists of digits, at least
/// one, and they write that number.
pub proof fn lemma_nat_text(n: nat)
    ensures
        nat_text(n).len() > 0,
        all_digits(nat_text(n)),
        digits_value(nat_text(n)) == n,
    decreases n,
{
    if n < 10 {
        assert(nat_text(n).drop_last() =~= Seq::<char>::empty());
        assert(digits_value(nat_text(n).drop_last()) == 0);
    } else {
        lemma_nat_text(n / 10);
        let head = nat_text(n / 10);
        let d = digit_char((n % 10) as int);
        assert(nat_text(n) == head.push(d));
        assert(head.push(d).drop_last() =~= head);
        assert forall|i: int| 0 <= i < nat_text(n).len() implies is_digit(
            #[trigger] nat_text(n)[i],
        ) by {
            if i < head.len() {
                assert(nat_text(n)[i] == head[i]);
            }
        }
    }
}

} // verus!
