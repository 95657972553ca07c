//! Text: whitespace, words, numerals and the decimal forms that fields carry.

use vstd::prelude::*;

verus! {

/// `==` on string slices compares the characters.
pub assume_specification[ <str as PartialEq>::eq ](left: &str, right: &str) -> (equal: bool)
    ensures
        equal == (left@ == right@),
;

/// The characters with the Unicode property `White_Space`.
pub open spec fn is_white(c: char) -> bool {
    ||| '\u{9}' <= c <= '\u{d}'
    ||| c == ' '
    ||| c == '\u{85}'
    ||| c == '\u{a0}'
    ||| c == '\u{1680}'
    ||| '\u{2000}' <= c <= '\u{200a}'
    ||| c == '\u{2028}'
    ||| c == '\u{2029}'
    ||| c == '\u{202f}'
    ||| c == '\u{205f}'
    ||| c == '\u{3000}'
}

/// Whether `c` is Unicode white space.
pub fn is_whitespace(c: char) -> (white: bool)
    ensures
        white == is_white(c),
{
    ('\u{9}' <= c && c <= '\u{d}') || c == ' ' || c == '\u{85}' || c == '\u{a0}'
        || c == '\u{1680}' || ('\u{2000}' <= c && c <= '\u{200a}') || c == '\u{2028}'
        || c == '\u{2029}' || c == '\u{202f}' || c == '\u{205f}' || c == '\u{3000}'
}

/// The characters of a string slice, in order.
pub fn chars_of(s: &str) -> (chars: Vec<char>)
    ensures
        chars@ == s@,
{
    let mut chars: Vec<char> = Vec::new();
    for c in it: s.chars()
        invariant
            it.seq() == s@,
            chars@ == s@.take(it.index() as int),
    {
        chars.push(c);
    }
    chars
}

/// Whether two string slices hold the same characters.
pub fn same(left: &str, right: &str) -> (equal: bool)
    ensures
        equal == (left@ == right@),
{
    *left == *right
}

/// `s` without the white space at its two ends.
pub open spec fn trimmed(s: Seq<char>) -> Seq<char>
    decreases s.len(),
{
    if s.len() == 0 {
        s
    } else if is_white(s.first()) {
        trimmed(s.drop_first())
    } else if is_white(s.last()) {
        trimmed(s.drop_last())
    } else {
        s
    }
}

proof fn lemma_trimmed_range(s: Seq<char>, from: int, to: int)
    requires
        0 <= from <= to <= s.len(),
        forall|i: int| 0 <= i < from ==> is_white(#[trigger] s[i]),
        forall|i: int| to <= i < s.len() ==> is_white(#[trigger] s[i]),
        from < to ==> !is_white(s[from]) && !is_white(s[to - 1]),
        from == to ==> from == s.len(),
    ensures
        trimmed(s) == s.subrange(from, to),
    decreases s.len(),
{
    if from > 0 {
        lemma_trimmed_range(s.drop_first(), from - 1, to - 1);
        assert(s.drop_first().subrange(from - 1, to - 1) =~= s.subrange(from, to));
    } else if to < s.len() {
        assert(!is_white(s.first()));
        lemma_trimmed_range(s.drop_last(), from, to);
        assert(s.drop_last().subrange(from, to) =~= s.subrange(from, to));
    } else {
        assert(s.subrange(from, to) =~= s);
    }
}

/// `s` without leading and trailing white space.
pub fn trim(s: &str) -> (core: &str)
    ensures
        core@ == trimmed(s@),
{
    let chars: Vec<char> = chars_of(s);
    let mut from: usize = 0;
    while from < chars.len() && is_whitespace(chars[from])
        invariant
            0 <= from <= chars@.len(),
            forall|i: int| 0 <= i < from ==> is_white(#[trigger] chars@[i]),
        decreases chars@.len() - from,
    {
        from += 1;
    }
    let mut to: usize = chars.len();
    while from < to && is_whitespace(chars[to - 1])
        invariant
            0 <= from <= to <= chars@.len(),
            from < chars@.len() ==> !is_white(chars@[from as int]) && from < to,
            forall|i: int| to <= i < chars@.len() ==> is_white(#[trigger] chars@[i]),
        decreases to,
    {
        to -= 1;
    }
    proof {
        lemma_trimmed_range(s@, from as int, to as int);
    }
    s.substring_char(from, to)
}

/// How many characters come before the first white space.
pub open spec fn word_len(s: Seq<char>) -> nat
    decreases s.len(),
{
    if s.len() == 0 || is_white(s.first()) {
        0
    } else {
        1 + word_len(s.drop_first())
    }
}

/// The maximal runs of characters that are not white space, in order.
pub open spec fn words(s: Seq<char>) -> Seq<Seq<char>>
    decreases s.len(),
{
    if s.len() == 0 {
        Seq::empty()
    } else if is_white(s.first()) {
        words(s.drop_first())
    } else {
        let n = word_len(s) as int;
        proof {
            lemma_word_len_bounded(s);
        }
        seq![s.take(n)] + words(s.skip(n))
    }
}

/// A word is no longer than the text it begins.
pub proof fn lemma_word_len_bounded(s: Seq<char>)
    ensures
        word_len(s) <= s.len(),
        s.len() > 0 && !is_white(s.first()) ==> word_len(s) > 0,
    decreases s.len(),
{
    if s.len() > 0 {
        lemma_word_len_bounded(s.drop_first());
    }
}

pub(crate) proof fn lemma_word_len(s: Seq<char>, n: int)
    requires
        0 <= n <= s.len(),
        forall|i: int| 0 <= i < n ==> !is_white(#[trigger] s[i]),
        n < s.len() ==> is_white(s[n]),
    ensures
        word_len(s) == n,
    decreases n,
{
    if n > 0 {
        assert(!is_white(s[0]));
        assert(forall|i: int|
            0 <= i < n - 1 ==> #[trigger] s.drop_first()[i] == s[i + 1]);
        lemma_word_len(s.drop_first(), n - 1);
    }
}

proof fn lemma_words_skip_white(s: Seq<char>, n: int)
    requires
        0 <= n <= s.len(),
        forall|i: int| 0 <= i < n ==> is_white(#[trigger] s[i]),
    ensures
        words(s) == words(s.skip(n)),
    decreases n,
{
    if n == 0 {
        assert(s.skip(0) =~= s);
    } else {
        assert(is_white(s[0]));
        lemma_words_skip_white(s.drop_first(), n - 1);
        assert(s.drop_first().skip(n - 1) =~= s.skip(n));
    }
}

/// Finds the first word at or after position `at`: `Some` of the positions
/// where it starts and where it ends.
pub(crate) fn next_word(chars: &Vec<char>, at: usize) -> (span: Option<(usize, usize)>)
    requires
        at <= chars@.len(),
    ensures
        span is None <==> words(chars@.skip(at as int)).len() == 0,
        span matches Some((from, to)) ==> {
            &&& at <= from < to <= chars@.len()
            &&& words(chars@.skip(at as int)) == seq![chars@.subrange(from as int, to as int)]
                + words(chars@.skip(to as int))
        },
{
    let mut from: usize = at;
    while from < chars.len() && is_whitespace(chars[from])
        invariant
            at <= from <= chars@.len(),
            forall|i: int| at <= i < from ==> is_white(#[trigger] chars@[i]),
        decreases chars@.len() - from,
    {
        from += 1;
    }
    let ghost rest = chars@.skip(at as int);
    proof {
        assert(rest.skip(from - at) =~= chars@.skip(from as int));
        assert(forall|i: int| 0 <= i < from - at ==> #[trigger] rest[i] == chars@[at + i]);
        lemma_words_skip_white(rest, from - at);
    }
    if from == chars.len() {
        assert(chars@.skip(from as int).len() == 0);
        return None;
    }
    let mut to: usize = from;
    while to < chars.len() && !is_whitespace(chars[to])
        invariant
            from <= to <= chars@.len(),
            forall|i: int| from <= i < to ==> !is_white(#[trigger] chars@[i]),
        decreases chars@.len() - to,
    {
        to += 1;
    }
    proof {
        let tail = chars@.skip(from as int);
        assert(forall|i: int| 0 <= i < to - from ==> #[trigger] tail[i] == chars@[from + i]);
        assert(tail[0] == chars@[from as int]);
        assert(from < to);
        lemma_word_len(tail, to - from);
        assert(tail.take(to - from) =~= chars@.subrange(from as int, to as int));
        assert(tail.skip(to - from) =~= chars@.skip(to as int));
    }
    Some((from, to))
}

/// The parts in order, with `sep` between each two.
pub open spec fn joined(parts: Seq<Seq<char>>, sep: Seq<char>) -> Seq<char>
    decreases parts.len(),
{
    if parts.len() == 0 {
        Seq::empty()
    } else if parts.len() == 1 {
        parts[0]
    } else {
        joined(parts.drop_last(), sep) + sep + parts.last()
    }
}

/// The character for the value `d` of one digit, in lower case.
pub open spec fn digit(d: nat) -> char {
    if d < 10 {
        ('0' as nat + d) as char
    } else {
        ('a' as nat + d - 10) as char
    }
}

/// The numeral of `n` in the given base, without leading zeros.
pub open spec fn numeral(n: nat, base: nat) -> Seq<char>
    recommends
        2 <= base <= 16,
    decreases n,
{
    if base < 2 || n < base {
        seq![digit(n)]
    } else {
        proof {
            lemma_quotient_smaller(n, base);
        }
        numeral(n / base, base).push(digit(n % base))
    }
}

/// Dividing by a base makes a number smaller.
pub proof fn lemma_quotient_smaller(n: nat, base: nat)
    requires
        2 <= base <= n,
    ensures
        n / base < n,
{
    assert(n / base < n) by (nonlinear_arith)
        requires
            2 <= base <= n,
    ;
}

fn digit_text(d: u64) -> (text: &'static str)
    requires
        d < 16,
    ensures
        text@ == seq![digit(d as nat)],
{
    proof {
        reveal_strlit("0");
        reveal_strlit("1");
        reveal_strlit("2");
        reveal_strlit("3");
        reveal_strlit("4");
        reveal_strlit("5");
        reveal_strlit("6");
        reveal_strlit("7");
        reveal_strlit("8");
        reveal_strlit("9");
        reveal_strlit("a");
        reveal_strlit("b");
        reveal_strlit("c");
        reveal_strlit("d");
        reveal_strlit("e");
        reveal_strlit("f");
    }
    match d {
        0 => "0",
        1 => "1",
        2 => "2",
        3 => "3",
        4 => "4",
        5 => "5",
        6 => "6",
        7 => "7",
        8 => "8",
        9 => "9",
        10 => "a",
        11 => "b",
        12 => "c",
        13 => "d",
        14 => "e",
        _ => "f",
    }
}

/// Appends the numeral of `n` in the given base.
pub(crate) fn append_numeral(out: &mut String, n: u64, base: u64)
    requires
        2 <= base <= 16,
    ensures
        final(out)@ == old(out)@ + numeral(n as nat, base as nat),
    decreases n,
{
    if n < base {
        out.append(digit_text(n));
    } else {
        proof {
            lemma_quotient_smaller(n as nat, base as nat);
        }
        append_numeral(out, n / base, base);
        out.append(digit_text(n % base));
    }
    assert(out@ =~= old(out)@ + numeral(n as nat, base as nat));
}

/// Whether `c` is one of the ten ASCII digits.
pub open spec fn is_digit(c: char) -> bool {
    '0' <= c <= '9'
}

/// The value of a run of decimal digits, most significant first.
pub open spec fn decimal(digits: Seq<char>) -> int
    decreases digits.len(),
{
    if digits.len() == 0 {
        0
    } else {
        decimal(digits.drop_last()) * 10 + (digits.last() as int - '0' as int)
    }
}

/// The value of a non-empty run of ASCII digits; `None` for any other text.
pub open spec fn digits_value(s: Seq<char>) -> Option<int> {
    if s.len() > 0 && forall|i: int| 0 <= i < s.len() ==> is_digit(#[trigger] s[i]) {
        Some(decimal(s))
    } else {
        None
    }
}

/// The number that an unsigned decimal text stands for: digits, after at most
/// one plus sign.
pub open spec fn unsigned_value(s: Seq<char>) -> Option<int> {
    if s.len() > 0 && s[0] == '+' {
        digits_value(s.drop_first())
    } else {
        digits_value(s)
    }
}

/// The number that a signed decimal text stands for: digits, after at most one
/// sign.
pub open spec fn signed_value(s: Seq<char>) -> Option<int> {
    if s.len() > 0 && s[0] == '-' {
        match digits_value(s.drop_first()) {
            Some(v) => Some(-v),
            None => None,
        }
    } else {
        unsigned_value(s)
    }
}

/// What the text reads as in the range of `u64`.
pub open spec fn read_u64(s: Seq<char>) -> Option<u64> {
    match unsigned_value(s) {
        Some(v) => if v <= u64::MAX { Some(v as u64) } else { None },
        None => None,
    }
}

/// What the text reads as in the range of `i32`.
pub open spec fn read_i32(s: Seq<char>) -> Option<i32> {
    match signed_value(s) {
        Some(v) => if i32::MIN <= v <= i32::MAX { Some(v as i32) } else { None },
        None => None,
    }
}

proof fn lemma_decimal_monotone(s: Seq<char>, n: int)
    requires
        0 <= n <= s.len(),
        forall|i: int| 0 <= i < s.len() ==> is_digit(#[trigger] s[i]),
    ensures
        0 <= decimal(s.take(n)) <= decimal(s),
    decreases s.len(),
{
    if s.len() > 0 {
        assert(is_digit(s[s.len() - 1]));
        let shorter = s.drop_last();
        lemma_decimal_monotone(shorter, 0);
        assert(shorter.take(0) =~= s.take(0));
        if n < s.len() {
            lemma_decimal_monotone(shorter, n);
            assert(shorter.take(n) =~= s.take(n));
        } else {
            assert(s.take(n) =~= s);
        }
    } else {
        assert(s.take(n) =~= s);
    }
}

/// Reads `chars[from..to]` as a run of ASCII digits; `None` unless it is one
/// and its value fits.
fn read_digits(chars: &Vec<char>, from: usize, to: usize) -> (value: Option<u64>)
    requires
        from <= to <= chars@.len(),
    ensures
        value == (match digits_value(chars@.subrange(from as int, to as int)) {
            Some(v) => if v <= u64::MAX { Some(v as u64) } else { None },
            None => None,
        }),
{
    let ghost s = chars@.subrange(from as int, to as int);
    if from == to {
        return None;
    }
    let mut value: u64 = 0;
    let mut i: usize = from;
    assert(s.take(0) =~= Seq::<char>::empty());
    while i < to
        invariant
            from <= i <= to <= chars@.len(),
            s == chars@.subrange(from as int, to as int),
            from < to,
            forall|j: int| 0 <= j < i - from ==> is_digit(#[trigger] s[j]),
            value == decimal(s.take(i - from)),
        decreases to - i,
    {
        let c: char = chars[i];
        assert(s[i - from] == c);
        if !('0' <= c && c <= '9') {
            assert(!is_digit(s[i - from]));
            return None;
        }
        let d: u64 = (c as u32 - '0' as u32) as u64;
        let ghost next = s.take(i - from + 1);
        proof {
            assert(next.drop_last() =~= s.take(i - from));
            assert(next.last() == c);
            assert(decimal(next) == value * 10 + d);
        }
        if value > (u64::MAX - d) / 10 {
            proof {
                if digits_value(s) is Some {
                    lemma_decimal_monotone(s, i - from + 1);
                }
            }
            return None;
        }
        value = value * 10 + d;
        i += 1;
    }
    assert(s.take(i - from) =~= s);
    Some(value)
}

/// Reads `chars[from..to]` as a signed decimal text.
pub(crate) fn parse_i32_in(chars: &Vec<char>, from: usize, to: usize) -> (value: Option<i32>)
    requires
        from <= to <= chars@.len(),
    ensures
        value == read_i32(chars@.subrange(from as int, to as int)),
{
    let ghost s = chars@.subrange(from as int, to as int);
    if from == to {
        return None;
    }
    let first: char = chars[from];
    assert(first == s[0]);
    let signed: bool = first == '-' || first == '+';
    let start: usize = if signed { from + 1 } else { from };
    proof {
        assert(chars@.subrange(from + 1, to as int) =~= s.drop_first());
        if digits_value(s.drop_first()) is Some {
            lemma_decimal_monotone(s.drop_first(), 0);
            assert(s.drop_first().take(0) =~= Seq::<char>::empty());
        }
        if digits_value(s) is Some {
            lemma_decimal_monotone(s, 0);
            assert(s.take(0) =~= Seq::<char>::empty());
        }
    }
    match read_digits(chars, start, to) {
        None => None,
        Some(v) => if first == '-' {
            if v <= 2147483648 {
                Some((-(v as i64)) as i32)
            } else {
                None
            }
        } else if v <= 2147483647 {
            Some(v as i32)
        } else {
            None
        },
    }
}

/// Reads a text as an unsigned number: ASCII digits, after at most one plus
/// sign, with a value that fits.
pub fn parse_u64(s: &str) -> (value: Option<u64>)
    ensures
        value == read_u64(s@),
{
    let chars: Vec<char> = chars_of(s);
    let start: usize = if chars.len() > 0 && chars[0] == '+' { 1 } else { 0 };
    proof {
        if start == 1 {
            assert(chars@.subrange(1, chars@.len() as int) =~= s@.drop_first());
        } else {
            assert(chars@.subrange(0, chars@.len() as int) =~= s@);
        }
    }
    read_digits(&chars, start, chars.len())
}

} // verus!
