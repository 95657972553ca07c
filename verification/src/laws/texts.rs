//! Texts: what counts as white space, how words and numbers are told, and how
//! parts are joined.

use vstd::prelude::*;

use crate::text;

verus! {

/// White space is tab to carriage return, the space, and the wider spaces and
/// line breaks of Unicode; nothing else is.
pub proof fn law_white_space(c: char)
    ensures
        text::is_white(c) <==> {
            let code = c as int;
            ||| 0x9 <= code <= 0xd
            ||| code == 0x20
            ||| code == 0x85
            ||| code == 0xa0
            ||| code == 0x1680
            ||| 0x2000 <= code <= 0x200a
            ||| code == 0x2028
            ||| code == 0x2029
            ||| code == 0x202f
            ||| code == 0x205f
            ||| code == 0x3000
        },
{
}

/// Trimming takes off white space at the two ends and nothing else: the text is
/// white space, what is left, and white space again; and what is left, if
/// anything, begins and ends with something else.
pub proof fn law_trimming_takes_off_the_ends(s: Seq<char>)
    ensures
        exists|before: Seq<char>, after: Seq<char>|
            {
                &&& s == #[trigger] (before + text::trimmed(s) + after)
                &&& forall|i: int| 0 <= i < before.len() ==> text::is_white(#[trigger] before[i])
                &&& forall|i: int| 0 <= i < after.len() ==> text::is_white(#[trigger] after[i])
            },
        text::trimmed(s).len() > 0 ==> !text::is_white(text::trimmed(s)[0]) && !text::is_white(
            text::trimmed(s)[text::trimmed(s).len() - 1],
        ),
{
    let (before, after) = lemma_trimmed(s);
    assert(s == before + text::trimmed(s) + after);
}

proof fn lemma_trimmed(s: Seq<char>) -> (ends: (Seq<char>, Seq<char>))
    ensures
        s == ends.0 + text::trimmed(s) + ends.1,
        forall|i: int| 0 <= i < ends.0.len() ==> text::is_white(#[trigger] ends.0[i]),
        forall|i: int| 0 <= i < ends.1.len() ==> text::is_white(#[trigger] ends.1[i]),
        text::trimmed(s).len() > 0 ==> !text::is_white(text::trimmed(s)[0]) && !text::is_white(
            text::trimmed(s)[text::trimmed(s).len() - 1],
        ),
    decreases s.len(),
{
    let core = text::trimmed(s);
    let none = Seq::<char>::empty();
    if s.len() > 0 && text::is_white(s.first()) {
        let (before, after) = lemma_trimmed(s.drop_first());
        let more = seq![s.first()] + before;
        assert(s =~= seq![s.first()] + s.drop_first());
        assert(s =~= more + core + after);
        (more, after)
    } else if s.len() > 0 && text::is_white(s.last()) {
        let (before, after) = lemma_trimmed(s.drop_last());
        let more = after.push(s.last());
        assert(s =~= s.drop_last().push(s.last()));
        assert(s =~= before + core + more);
        (before, more)
    } else {
        assert(s =~= none + core + none);
        (none, none)
    }
}

/// A text of white space has no words; one that has a word, after white space
/// and before white space or the end, has that word and those of the rest.
pub proof fn law_words(white: Seq<char>, word: Seq<char>, rest: Seq<char>)
    requires
        forall|i: int| 0 <= i < white.len() ==> text::is_white(#[trigger] white[i]),
        word.len() > 0,
        forall|i: int| 0 <= i < word.len() ==> !text::is_white(#[trigger] word[i]),
        rest.len() > 0 ==> text::is_white(rest[0]),
    ensures
        text::words(white).len() == 0,
        text::words(white + word + rest) == seq![word] + text::words(rest),
    decreases white.len(),
{
    let whole = white + word + rest;
    if white.len() > 0 {
        let shorter = white.drop_first();
        assert(text::is_white(white[0]));
        assert(whole.first() == white[0]);
        assert(whole.drop_first() =~= shorter + word + rest);
        assert forall|i: int| 0 <= i < shorter.len() implies text::is_white(
            #[trigger] shorter[i],
        ) by {
            assert(shorter[i] == white[i + 1]);
        }
        law_words(shorter, word, rest);
    } else {
        assert(whole =~= word + rest);
        let n = word.len() as int;
        assert forall|i: int| 0 <= i < n implies !text::is_white(#[trigger] whole[i]) by {
            assert(whole[i] == word[i]);
        }
        text::lemma_word_len(whole, n);
        assert(whole.first() == word[0]);
        assert(whole.take(n) =~= word);
        assert(whole.skip(n) =~= rest);
    }
}

/// No parts make an empty text, one part is the text, and each further part
/// comes at the end, behind a separator.
pub proof fn law_joined(parts: Seq<Seq<char>>, part: Seq<char>, sep: Seq<char>)
    ensures
        text::joined(Seq::empty(), sep) == Seq::<char>::empty(),
        text::joined(seq![part], sep) == part,
        parts.len() > 0 ==> text::joined(parts.push(part), sep) == text::joined(parts, sep) + sep
            + part,
{
    if parts.len() > 0 {
        assert(parts.push(part).drop_last() =~= parts);
    }
}

/// A numeral is written most significant digit first, without leading zeros: a
/// number below the base is its own digit, `0` to `9` and then `a` to `f`; any
/// other is the numeral of its quotient by the base, and then the digit of the
/// remainder.
pub proof fn law_numeral(n: nat, base: nat)
    requires
        2 <= base <= 16,
    ensures
        n < base ==> text::numeral(n, base).len() == 1 && text::numeral(n, base)[0] as int == (
        if n < 10 {
            48 + n
        } else {
            87 + n
        }),
        n >= base ==> text::numeral(n, base) == text::numeral(n / base, base) + text::numeral(
            n % base,
            base,
        ),
{
    if n >= base {
        assert(n % base < base) by (nonlinear_arith)
            requires
                base >= 2,
        ;
        assert(text::numeral(n, base) =~= text::numeral(n / base, base) + text::numeral(
            n % base,
            base,
        ));
    }
}

/// How an unsigned number is read, one character after the other: a digit by
/// itself is its value, and one behind a text multiplies what was read by ten
/// and adds its value, as far as 64 bits hold it. A plus sign may come first;
/// an empty text, and one with any other character, is no number.
pub proof fn law_unsigned_texts(s: Seq<char>, c: char)
    ensures
        ({
            let d = c as int - 48;
            let next = text::read_u64(s.push(c));
            &&& text::read_u64(Seq::empty()) is None
            &&& !(0 <= d <= 9) ==> next is None
            &&& 0 <= d <= 9 && (s.len() == 0 || s == seq!['+']) ==> next == Some(d as u64)
            &&& 0 <= d <= 9 && s.len() > 0 && s != seq!['+'] ==> match text::read_u64(s) {
                Some(v) => next == (if v * 10 + d <= 0xffff_ffff_ffff_ffff {
                    Some((v * 10 + d) as u64)
                } else {
                    None
                }),
                None => next is None,
            }
        }),
{
    let t = s.push(c);
    assert(t.last() == c);
    assert(t.drop_last() =~= s);
    if s.len() == 0 {
        assert(t =~= seq![c]);
        lemma_digits_push(s, c);
        assert(t.drop_first() =~= s);
    } else {
        assert(t[0] == s[0]);
        assert(t.drop_first() =~= s.drop_first().push(c));
        lemma_digits_push(s, c);
        lemma_digits_push(s.drop_first(), c);
        if s =~= seq!['+'] {
            assert(s.drop_first() =~= Seq::empty());
        } else if s[0] == '+' {
            assert(s.drop_first().len() > 0);
        }
    }
}

proof fn lemma_digits_push(s: Seq<char>, c: char)
    ensures
        ({
            let d = c as int - 48;
            &&& !(0 <= d <= 9) ==> text::digits_value(s.push(c)) is None
            &&& 0 <= d <= 9 && s.len() == 0 ==> text::digits_value(s.push(c)) == Some(d)
            &&& 0 <= d <= 9 && s.len() > 0 ==> match text::digits_value(s) {
                Some(v) => v >= 0 && text::digits_value(s.push(c)) == Some(v * 10 + d),
                None => text::digits_value(s.push(c)) is None,
            }
        }),
    decreases s.len(),
{
    let t = s.push(c);
    let d = c as int - 48;
    assert(t.last() == c);
    assert(t[s.len() as int] == c);
    assert(t.drop_last() =~= s);
    assert(text::is_digit(c) <==> 0 <= d <= 9);
    if s.len() == 0 {
        assert(text::decimal(s) == 0);
        if 0 <= d <= 9 {
            assert forall|i: int| 0 <= i < t.len() implies text::is_digit(#[trigger] t[i]) by {}
        }
    } else if text::digits_value(s) is Some {
        if 0 <= d <= 9 {
            assert forall|i: int| 0 <= i < t.len() implies text::is_digit(#[trigger] t[i]) by {
                if i < s.len() {
                    assert(t[i] == s[i]);
                }
            }
        }
        let shorter = s.drop_last();
        assert(text::is_digit(s[s.len() - 1]));
        assert(shorter.push(s.last()) =~= s);
        lemma_digits_push(shorter, s.last());
        if shorter.len() > 0 {
            assert forall|i: int| 0 <= i < shorter.len() implies text::is_digit(
                #[trigger] shorter[i],
            ) by {
                assert(shorter[i] == s[i]);
            }
        }
    } else {
        let i = choose|i: int| 0 <= i < s.len() && !text::is_digit(#[trigger] s[i]);
        assert(!text::is_digit(t[i]));
    }
}

/// How a signed number is read, one character after the other: as an unsigned
/// one is, but a minus sign may come first, behind which each digit counts
/// downwards, as far as 32 bits hold it.
pub proof fn law_signed_texts(s: Seq<char>, c: char)
    ensures
        ({
            let d = c as int - 48;
            let next = text::read_i32(s.push(c));
            &&& text::read_i32(Seq::empty()) is None
            &&& !(0 <= d <= 9) ==> next is None
            &&& 0 <= d <= 9 && (s.len() == 0 || s == seq!['+']) ==> next == Some(d as i32)
            &&& 0 <= d <= 9 && s == seq!['-'] ==> next == Some((-d) as i32)
            &&& 0 <= d <= 9 && s.len() > 0 && s != seq!['+'] && s != seq!['-']
                ==> match text::read_i32(s) {
                Some(v) => {
                    let w = if s[0] == '-' {
                        v * 10 - d
                    } else {
                        v * 10 + d
                    };
                    next == (if -0x8000_0000 <= w <= 0x7fff_ffff {
                        Some(w as i32)
                    } else {
                        None
                    })
                },
                None => next is None,
            }
        }),
{
    let t = s.push(c);
    assert(t.last() == c);
    assert(t.drop_last() =~= s);
    if s.len() == 0 {
        assert(t =~= seq![c]);
        lemma_digits_push(s, c);
        assert(t.drop_first() =~= s);
    } else {
        assert(t[0] == s[0]);
        assert(t.drop_first() =~= s.drop_first().push(c));
        lemma_digits_push(s, c);
        lemma_digits_push(s.drop_first(), c);
        if s.len() == 1 {
            assert(s =~= seq![s[0]]);
            assert(s.drop_first() =~= Seq::empty());
        }
        assert(seq!['+'].len() == 1 && seq!['-'].len() == 1);
        assert(seq!['+'][0] == '+' && seq!['-'][0] == '-');
    }
}

} // verus!
