//! Texts: what is written is read back, and white space around a line does not
//! matter.

use vstd::prelude::*;

use crate::events;
use crate::text;

verus! {

proof fn lemma_numeral_digits(n: nat)
    ensures
        text::numeral(n, 10).len() > 0,
        forall|i: int|
            0 <= i < text::numeral(n, 10).len() ==> text::is_digit(
                #[trigger] text::numeral(n, 10)[i],
            ),
        text::decimal(text::numeral(n, 10)) == n,
    decreases n,
{
    let s = text::numeral(n, 10);
    if n < 10 {
        assert(s =~= seq![text::digit(n)]);
        assert(s.drop_last() =~= Seq::<char>::empty());
        assert(text::decimal(s.drop_last()) == 0);
        assert(s.last() as int == '0' as int + n);
    } else {
        lemma_numeral_digits(n / 10);
        assert(s.drop_last() =~= text::numeral(n / 10, 10));
        assert(s.last() == text::digit(n % 10));
        assert(s.last() as int == '0' as int + n % 10);
        assert(n == (n / 10) * 10 + n % 10);
    }
}

/// An unsigned number is read back from its numeral, also after a plus sign.
pub proof fn law_unsigned_read_back(n: u64)
    ensures
        text::read_u64(text::numeral(n as nat, 10)) == Some(n),
        text::read_u64(seq!['+'] + text::numeral(n as nat, 10)) == Some(n),
{
    lemma_numeral_digits(n as nat);
    let s = text::numeral(n as nat, 10);
    assert(text::is_digit(s[0]));
    assert((seq!['+'] + s).drop_first() =~= s);
}

/// The numeral of a signed number: a minus sign before that of a negative one.
pub open spec fn signed_numeral(v: int) -> Seq<char> {
    if v < 0 {
        seq!['-'] + text::numeral((-v) as nat, 10)
    } else {
        text::numeral(v as nat, 10)
    }
}

pub(crate) proof fn lemma_signed_numeral(v: int)
    ensures
        signed_numeral(v).len() > 0,
        forall|i: int|
            0 <= i < signed_numeral(v).len() ==> !text::is_white(#[trigger] signed_numeral(v)[i])
                && signed_numeral(v)[i] != ')',
{
    let n = if v < 0 {
        (-v) as nat
    } else {
        v as nat
    };
    lemma_numeral_digits(n);
    let digits = text::numeral(n, 10);
    let s = signed_numeral(v);
    assert forall|i: int| 0 <= i < s.len() implies !text::is_white(#[trigger] s[i]) && s[i]
        != ')' by {
        if v < 0 {
            if i > 0 {
                assert(s[i] == digits[i - 1]);
            }
        } else {
            assert(text::is_digit(digits[i]));
        }
    }
}

/// A signed number is read back from its numeral.
pub proof fn law_signed_read_back(v: i32)
    ensures
        text::read_i32(signed_numeral(v as int)) == Some(v),
{
    let n = if v < 0 {
        (-v) as nat
    } else {
        v as nat
    };
    lemma_numeral_digits(n);
    let s = text::numeral(n, 10);
    assert(text::is_digit(s[0]));
    assert((seq!['-'] + s).drop_first() =~= s);
}

/// White space around a text does not change what is left of it when trimmed.
pub proof fn law_white_space_around(before: Seq<char>, s: Seq<char>, after: Seq<char>)
    requires
        forall|i: int| 0 <= i < before.len() ==> text::is_white(#[trigger] before[i]),
        forall|i: int| 0 <= i < after.len() ==> text::is_white(#[trigger] after[i]),
    ensures
        text::trimmed(before + s + after) == text::trimmed(s),
    decreases before.len() + s.len() + after.len(),
{
    let whole = before + s + after;
    if before.len() > 0 {
        assert(text::is_white(before[0]));
        assert(whole.first() == before[0]);
        assert(whole.drop_first() =~= before.drop_first() + s + after);
        law_white_space_around(before.drop_first(), s, after);
    } else if s.len() > 0 && text::is_white(s.first()) {
        assert(whole.first() == s.first());
        assert(whole.drop_first() =~= before + s.drop_first() + after);
        law_white_space_around(before, s.drop_first(), after);
    } else if s.len() == 0 && after.len() > 0 {
        assert(text::is_white(after[0]));
        assert(whole.first() == after[0]);
        assert(whole.drop_first() =~= before + s + after.drop_first());
        law_white_space_around(before, s, after.drop_first());
    } else if after.len() > 0 {
        assert(text::is_white(after[after.len() - 1]));
        assert(whole.first() == s.first());
        assert(whole.last() == after.last());
        assert(whole.drop_last() =~= before + s + after.drop_last());
        law_white_space_around(before, s, after.drop_last());
    } else {
        assert(whole =~= s);
    }
}

/// A trimmed text neither begins nor ends with white space.
pub proof fn law_trimmed_ends(s: Seq<char>)
    ensures
        text::trimmed(s).len() > 0 ==> !text::is_white(text::trimmed(s).first())
            && !text::is_white(text::trimmed(s).last()),
        text::trimmed(text::trimmed(s)) == text::trimmed(s),
    decreases s.len(),
{
    if s.len() > 0 {
        if text::is_white(s.first()) {
            law_trimmed_ends(s.drop_first());
        } else if text::is_white(s.last()) {
            law_trimmed_ends(s.drop_last());
        }
    }
}

proof fn lemma_scalar_bytes(scalar: u32)
    requires
        vstd::utf8::is_scalar(scalar),
        scalar != 0,
    ensures
        forall|i: int|
            0 <= i < vstd::utf8::encode_scalar(scalar).len() ==> #[trigger] vstd::utf8::encode_scalar(
                scalar,
            )[i] != 0,
{
    assert(0x80u8 | (scalar & 0x3F) as u8 != 0) by (bit_vector);
    assert(0x80u8 | ((scalar >> 6) & 0x3F) as u8 != 0) by (bit_vector);
    assert(0x80u8 | ((scalar >> 12) & 0x3F) as u8 != 0) by (bit_vector);
    assert(0xC0u8 | ((scalar >> 6) & 0x1F) as u8 != 0) by (bit_vector);
    assert(0xE0u8 | ((scalar >> 12) & 0x0F) as u8 != 0) by (bit_vector);
    assert(0xF0u8 | ((scalar >> 18) & 0x7) as u8 != 0) by (bit_vector);
    assert(0 < scalar <= 0x7F ==> (scalar & 0x7F) as u8 != 0) by (bit_vector);
}

proof fn lemma_char_bytes(c: char)
    requires
        c != '\0',
    ensures
        forall|i: int|
            0 <= i < vstd::utf8::encode_scalar(c as u32).len()
                ==> #[trigger] vstd::utf8::encode_scalar(c as u32)[i] != 0,
{
    vstd::utf8::char_is_scalar(c);
    lemma_scalar_bytes(c as u32);
}

proof fn lemma_encoding_has_no_nul(s: Seq<char>)
    requires
        !s.contains('\0'),
    ensures
        forall|i: int|
            0 <= i < vstd::utf8::encode_utf8(s).len() ==> #[trigger] vstd::utf8::encode_utf8(s)[i]
                != 0,
    decreases s.len(),
{
    if s.len() > 0 {
        assert(s.contains(s[0]));
        lemma_char_bytes(s[0]);
        assert forall|i: int| 0 <= i < s.drop_first().len() implies #[trigger] s.drop_first()[i]
            != '\0' by {
            assert(s.contains(s[i + 1]));
        }
        lemma_encoding_has_no_nul(s.drop_first());
        let head = vstd::utf8::encode_scalar(s[0] as u32);
        let tail = vstd::utf8::encode_utf8(s.drop_first());
        assert(vstd::utf8::encode_utf8(s) == head + tail);
        assert forall|i: int| 0 <= i < (head + tail).len() implies #[trigger] (head + tail)[i]
            != 0 by {
            if i < head.len() {
                assert(head[i] != 0);
            } else {
                assert(tail[i - head.len()] != 0);
            }
        }
    }
}

proof fn lemma_until_nul_of_padded(bytes: Seq<u8>, padding: Seq<u8>)
    requires
        forall|i: int| 0 <= i < bytes.len() ==> #[trigger] bytes[i] != 0,
        padding.len() > 0 ==> padding[0] == 0,
    ensures
        events::until_nul(bytes + padding) == bytes,
    decreases bytes.len(),
{
    let whole = bytes + padding;
    if bytes.len() > 0 {
        assert(whole.first() == bytes[0]);
        assert(whole.drop_first() =~= bytes.drop_first() + padding);
        lemma_until_nul_of_padded(bytes.drop_first(), padding);
        assert(seq![bytes.first()] + bytes.drop_first() =~= bytes);
    } else {
        assert(whole =~= padding);
    }
}

/// A text without NUL is read back from a field that holds it in UTF-8 and
/// then, if there is room, a NUL and whatever follows.
pub proof fn law_field_read_back(s: Seq<char>, padding: Seq<u8>)
    requires
        !s.contains('\0'),
        padding.len() > 0 ==> padding[0] == 0,
    ensures
        events::field_text(vstd::utf8::encode_utf8(s) + padding) == s,
{
    lemma_encoding_has_no_nul(s);
    lemma_until_nul_of_padded(vstd::utf8::encode_utf8(s), padding);
    vstd::utf8::encode_utf8_valid_utf8(s);
    vstd::utf8::encode_utf8_decode_utf8(s);
}

} // verus!
