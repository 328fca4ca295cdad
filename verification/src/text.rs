//! Line terminators in captured text.

use vstd::prelude::*;
use vstd::utf8::*;

verus! {

/// The text ends with a line feed.
pub open spec fn ends_line(text: Seq<char>) -> bool {
    text.len() > 0 && text.last() == '\n'
}

/// The last byte of a character's UTF-8 encoding is a line feed exactly when
/// the character is one.
proof fn lemma_scalar_last_byte(c: char)
    ensures
        encode_scalar(c as u32).len() > 0,
        encode_scalar(c as u32).last() == 0x0Au8 <==> c == '\n',
{
    let s = c as u32;
    char_is_scalar(c);
    if has_width_1_encoding(s) {
        assert(((s & 0x7F) as u8 == 0x0Au8) <==> s == 0x0Au32) by (bit_vector)
            requires
                s <= 0x7Fu32,
        ;
        if s == 0x0Au32 {
            char_u32_cast(c, s);
        }
    } else {
        assert((0x80u8 | (s & 0x3F) as u8) != 0x0Au8) by (bit_vector);
    }
}

/// The last byte of a text's UTF-8 encoding is a line feed exactly when the
/// text ends with one, and the encoding is empty exactly when the text is.
proof fn lemma_encoding_last_byte(chars: Seq<char>)
    ensures
        encode_utf8(chars).len() == 0 <==> chars.len() == 0,
        chars.len() > 0 ==> (encode_utf8(chars).last() == 0x0Au8 <==> chars.last() == '\n'),
    decreases chars.len(),
{
    if chars.len() > 0 {
        let rest = chars.drop_first();
        lemma_scalar_last_byte(chars[0]);
        lemma_encoding_last_byte(rest);
    }
}

/// Tells whether `text` ends with a line feed.
pub fn ends_with_newline(text: &str) -> (r: bool)
    ensures
        r == ends_line(text@),
{
    let bytes = text.as_bytes();
    let n: usize = bytes.len();
    proof {
        lemma_encoding_last_byte(text@);
    }
    n > 0 && bytes[n - 1] == 0x0Au8
}

} // verus!
