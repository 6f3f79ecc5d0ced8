//! Bytes and text: decimal numbers, comparing and appending, and how a text
//! relates to its UTF-8 bytes.

use vstd::prelude::*;
use vstd::utf8::*;

verus! {

/// The decimal digits of `n` in ASCII, most significant first, without
/// leading zeros (`0` itself is the single digit `0`).
pub open spec fn decimal(n: nat) -> Seq<u8>
    decreases n,
{
    if n < 10 {
        seq![(48 + n) as u8]
    } else {
        decimal(n / 10).push((48 + n % 10) as u8)
    }
}

/// Writes `n` in decimal.
pub fn decimal_digits(n: u64) -> (digits: Vec<u8>)
    ensures
        digits@ == decimal(n as nat),
    decreases n,
{
    if n < 10 {
        let digit: u8 = 48 + (n as u8);
        let mut digits: Vec<u8> = Vec::new();
        digits.push(digit);
        digits
    } else {
        let mut digits = decimal_digits(n / 10);
        let digit: u8 = 48 + ((n % 10) as u8);
        digits.push(digit);
        digits
    }
}

/// Appends `tail` to `buffer`.
pub fn append(buffer: &mut Vec<u8>, tail: &[u8])
    ensures
        final(buffer)@ == old(buffer)@ + tail@,
{
    buffer.extend_from_slice(tail);
}

/// Appends the UTF-8 bytes of `text` to `buffer`.
pub fn append_text(buffer: &mut Vec<u8>, text: &str)
    ensures
        final(buffer)@ == old(buffer)@ + encode_utf8(text@),
{
    append(buffer, text.as_bytes());
}

/// Whether two byte strings are the same.
pub fn equal_bytes(left: &[u8], right: &[u8]) -> (same: bool)
    ensures
        same == (left@ == right@),
{
    if left.len() != right.len() {
        return false;
    }
    let mut at: usize = 0;
    while at < left.len()
        invariant
            left@.len() == right@.len(),
            at <= left@.len(),
            forall|i: int| 0 <= i < at ==> left@[i] == right@[i],
        decreases left@.len() - at,
    {
        if left[at] != right[at] {
            return false;
        }
        at += 1;
    }
    assert(left@ =~= right@);
    true
}

/// Whether `whole` begins with `front`.
pub fn begins_with(whole: &[u8], front: &[u8]) -> (begins: bool)
    ensures
        begins == front@.is_prefix_of(whole@),
{
    if whole.len() < front.len() {
        return false;
    }
    equal_bytes(vstd::slice::slice_subrange(whole, 0, front.len()), front)
}

/// Whether two texts are the same.
pub fn equal_text(left: &str, right: &str) -> (same: bool)
    ensures
        same == (left@ == right@),
{
    proof {
        lemma_encode_injective(left@, right@);
    }
    equal_bytes(left.as_bytes(), right.as_bytes())
}

/// What follows `front` in `whole`, if `whole` begins with `front`.
pub fn strip_prefix<'a>(whole: &'a str, front: &str) -> (rest: Option<&'a str>)
    ensures
        match rest {
            Some(rest) => front@.is_prefix_of(whole@) && rest@ == whole@.skip(front@.len() as int),
            None => !front@.is_prefix_of(whole@),
        },
{
    proof {
        lemma_prefix(front@, whole@);
    }
    if begins_with(whole.as_bytes(), front.as_bytes()) {
        let (_, rest) = whole.split_at(front.as_bytes().len());
        proof {
            lemma_encode_injective(rest@, whole@.skip(front@.len() as int));
        }
        Some(rest)
    } else {
        None
    }
}

/// The bytes of a text made of two parts are the bytes of the first part
/// followed by those of the second.
pub proof fn lemma_encode_concat(first: Seq<char>, second: Seq<char>)
    ensures
        encode_utf8(first + second) == encode_utf8(first) + encode_utf8(second),
    decreases first.len(),
{
    if first.len() == 0 {
        assert(first + second =~= second);
        assert(encode_utf8(first) + encode_utf8(second) =~= encode_utf8(second));
    } else {
        assert((first + second).drop_first() =~= first.drop_first() + second);
        lemma_encode_concat(first.drop_first(), second);
        assert(encode_utf8(first + second) =~= encode_utf8(first) + encode_utf8(second));
    }
}

/// Texts with the same bytes are the same text.
pub proof fn lemma_encode_injective(left: Seq<char>, right: Seq<char>)
    ensures
        encode_utf8(left) == encode_utf8(right) <==> left == right,
{
    encode_utf8_decode_utf8(left);
    encode_utf8_decode_utf8(right);
}

/// In the bytes of a text made of two parts, a character begins where the
/// bytes of the first part end.
pub proof fn lemma_boundary(first: Seq<char>, second: Seq<char>)
    ensures
        is_char_boundary(encode_utf8(first + second), encode_utf8(first).len() as int),
    decreases first.len(),
{
    let bytes = encode_utf8(first + second);
    encode_utf8_valid_utf8(first + second);
    if first.len() > 0 {
        let more = first.drop_first();
        assert((first + second).drop_first() =~= more + second);
        encode_utf8_first_scalar(first + second);
        let k = encode_scalar(first[0] as u32).len() as int;
        assert(pop_first_scalar(bytes) =~= encode_utf8(more + second));
        lemma_boundary(more, second);
        assert(encode_utf8(first).len() == k + encode_utf8(more).len());
        lemma_encode_concat(first, second);
    }
}

/// A text begins with another exactly when its bytes begin with the bytes
/// of the other; what follows in the text then has the bytes that follow,
/// and these begin at a character.
pub proof fn lemma_prefix(front: Seq<char>, whole: Seq<char>)
    ensures
        front.is_prefix_of(whole) <==> encode_utf8(front).is_prefix_of(encode_utf8(whole)),
        front.is_prefix_of(whole) ==> {
            &&& encode_utf8(whole.skip(front.len() as int)) == encode_utf8(whole).skip(
                encode_utf8(front).len() as int,
            )
            &&& is_char_boundary(encode_utf8(whole), encode_utf8(front).len() as int)
        },
    decreases front.len(),
{
    let short = encode_utf8(front);
    let long = encode_utf8(whole);
    if front.is_prefix_of(whole) {
        let tail = whole.skip(front.len() as int);
        assert(whole =~= front + tail);
        lemma_encode_concat(front, tail);
        lemma_boundary(front, tail);
        assert(long.subrange(0, short.len() as int) =~= short);
        assert(long.skip(short.len() as int) =~= encode_utf8(tail));
    }
    if short.is_prefix_of(long) && front.len() > 0 {
        encode_utf8_first_scalar(front);
        let k = encode_scalar(front[0] as u32).len() as int;
        assert(short.len() == k + encode_utf8(front.drop_first()).len());
        assert(whole.len() > 0);
        encode_utf8_first_scalar(whole);
        assert forall|i: int| 0 <= i < k implies short[i] == long[i] by {
            assert(short[i] == long.subrange(0, short.len() as int)[i]);
        }
        assert(front[0] == whole[0]) by {
            char_u32_cast(front[0], decode_first_scalar(short));
            char_u32_cast(whole[0], decode_first_scalar(long));
        }
        assert(encode_utf8(front.drop_first()) =~= short.skip(k));
        assert(encode_utf8(whole.drop_first()) =~= long.skip(k));
        assert(short.skip(k) =~= long.skip(k).subrange(0, short.len() - k));
        lemma_prefix(front.drop_first(), whole.drop_first());
        assert(whole.subrange(0, front.len() as int) =~= front) by {
            let inner = whole.drop_first().subrange(0, front.len() - 1);
            assert(inner =~= front.drop_first());
            assert forall|i: int| 0 <= i < front.len() implies whole[i] == front[i] by {
                if i > 0 {
                    assert(whole[i] == inner[i - 1]);
                    assert(front[i] == front.drop_first()[i - 1]);
                }
            }
        }
    }
}

/// An ASCII character is encoded as its own single byte, and every byte of
/// the encoding of another character lies beyond ASCII.
pub proof fn lemma_ascii_scalar(c: char, byte: u8)
    requires
        byte <= 0x7f,
    ensures
        encode_scalar(c as u32).len() > 0,
        encode_scalar(c as u32).contains(byte) <==> c == byte as char,
        encode_scalar(c as u32)[0] == byte <==> c == byte as char,
{
    let s = c as u32;
    let bytes = encode_scalar(s);
    char_is_scalar(c);
    if has_width_1_encoding(s) {
        assert(leading_byte_width_1(s) == s as u8) by (bit_vector)
            requires
                s <= 0x7f,
        ;
        assert(bytes[0] == s as u8);
        if c == byte as char {
            assert(bytes[0] == byte);
        }
    } else {
        let a = ((s >> 6) & 0x1f) as u8;
        let b = ((s >> 12) & 0x0f) as u8;
        let d = ((s >> 18) & 0x07) as u8;
        let x = (s & 0x3f) as u8;
        let y = ((s >> 6) & 0x3f) as u8;
        let z = ((s >> 12) & 0x3f) as u8;
        assert((0xc0u8 | a) >= 0x80) by (bit_vector);
        assert((0xe0u8 | b) >= 0x80) by (bit_vector);
        assert((0xf0u8 | d) >= 0x80) by (bit_vector);
        assert((0x80u8 | x) >= 0x80) by (bit_vector);
        assert((0x80u8 | y) >= 0x80) by (bit_vector);
        assert((0x80u8 | z) >= 0x80) by (bit_vector);
        assert forall|i: int| 0 <= i < bytes.len() implies bytes[i] >= 0x80 by {}
    }
}

/// An ASCII character stands in a text exactly when its byte stands among
/// the bytes of the text; and a text is empty exactly when it has no bytes.
pub proof fn lemma_ascii_occurs(text: Seq<char>, byte: u8)
    requires
        byte <= 0x7f,
    ensures
        encode_utf8(text).contains(byte) <==> text.contains(byte as char),
        encode_utf8(text).len() > 0 <==> text.len() > 0,
    decreases text.len(),
{
    if text.len() > 0 {
        let head = encode_scalar(text[0] as u32);
        let more = text.drop_first();
        let tail = encode_utf8(more);
        let bytes = encode_utf8(text);
        lemma_ascii_scalar(text[0], byte);
        lemma_ascii_occurs(more, byte);
        assert(bytes == head + tail);
        if bytes.contains(byte) {
            let i = choose|i: int| 0 <= i < bytes.len() && bytes[i] == byte;
            if i < head.len() {
                assert(head[i] == byte);
                assert(text[0] == byte as char);
            } else {
                assert(tail[i - head.len()] == byte);
                let j = choose|j: int| 0 <= j < more.len() && more[j] == byte as char;
                assert(text[j + 1] == byte as char);
            }
        }
        if text.contains(byte as char) {
            let i = choose|i: int| 0 <= i < text.len() && text[i] == byte as char;
            if i == 0 {
                let j = choose|j: int| 0 <= j < head.len() && head[j] == byte;
                assert(bytes[j] == byte);
            } else {
                assert(more[i - 1] == byte as char);
                let j = choose|j: int| 0 <= j < tail.len() && tail[j] == byte;
                assert(bytes[head.len() + j] == byte);
            }
        }
    }
}

/// A text begins with an ASCII character exactly when its bytes begin
/// with the byte of that character.
pub proof fn lemma_ascii_first(text: Seq<char>, byte: u8)
    requires
        byte <= 0x7f,
        text.len() > 0,
    ensures
        encode_utf8(text).len() > 0,
        encode_utf8(text)[0] == byte <==> text[0] == byte as char,
{
    lemma_ascii_scalar(text[0], byte);
}

} // verus!
