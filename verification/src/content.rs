//! The text of a message frame: UTF-8, padded with zero bytes to a fixed size.

use vstd::prelude::*;
use vstd::string::StringSliceAdditionalSpecFns;
use vstd::utf8::decode_utf8;
use vstd::utf8::encode_scalar;
use vstd::utf8::encode_utf8;
use vstd::utf8::encode_utf8_decode_utf8;
use vstd::utf8::encode_utf8_valid_utf8;
use vstd::utf8::valid_utf8;

use crate::error::PacketError;
use crate::layout::CONTENT_CAPACITY;

verus! {

/// `n` zero bytes.
pub open spec fn zeros(n: int) -> Seq<u8> {
    Seq::new(n as nat, |i: int| 0u8)
}

/// `text` followed by as many zero bytes as bring it to `size` bytes.
pub open spec fn padded(text: Seq<u8>, size: int) -> Seq<u8>
    recommends
        text.len() <= size,
{
    text + zeros(size - text.len())
}

/// `bytes` without the zero bytes at its end. Zero bytes elsewhere stay.
pub open spec fn strip_trailing_zeros(bytes: Seq<u8>) -> Seq<u8>
    decreases bytes.len(),
{
    if bytes.len() > 0 && bytes.last() == 0 {
        strip_trailing_zeros(bytes.drop_last())
    } else {
        bytes
    }
}

/// `text` without the NUL characters at its end. NUL characters elsewhere
/// stay.
pub open spec fn strip_trailing_nuls(text: Seq<char>) -> Seq<char>
    decreases text.len(),
{
    if text.len() > 0 && text.last() == '\0' {
        strip_trailing_nuls(text.drop_last())
    } else {
        text
    }
}

/// The text of one message frame, as the frame stores it: the UTF-8 bytes of
/// the text, then zero bytes up to the capacity. A value of this type is made
/// from a string and from nothing else, so what it holds before the padding
/// is always UTF-8.
pub struct PacketMessageContent([u8; CONTENT_CAPACITY]);

impl View for PacketMessageContent {
    type V = Seq<u8>;

    closed spec fn view(&self) -> Seq<u8> {
        self.0@
    }
}

impl PacketMessageContent {
    #[verifier::type_invariant]
    spec fn inv(self) -> bool {
        valid_utf8(strip_trailing_zeros(self.0@))
    }

    /// The text that a frame filled with this content reads as: what the
    /// bytes before the padding decode to.
    pub open spec fn text(self) -> Seq<char> {
        decode_utf8(strip_trailing_zeros(self@))
    }

    /// Pads `text` for a message frame. A text of more than 994 bytes does
    /// not fit and is refused whole, never cut.
    pub fn encode(text: &str) -> (res: Result<PacketMessageContent, PacketError>)
        ensures
            match res {
                Ok(content) => {
                    &&& text.spec_bytes().len() <= CONTENT_CAPACITY
                    &&& content@ == padded(text.spec_bytes(), CONTENT_CAPACITY as int)
                    &&& content.text() == strip_trailing_nuls(text@)
                },
                Err(e) => {
                    &&& text.spec_bytes().len() > CONTENT_CAPACITY
                    &&& e == (PacketError::ContentTooLong {
                        len: text.spec_bytes().len() as usize,
                    })
                },
            },
    {
        let bytes = text.as_bytes();
        let len: usize = bytes.len();
        if len > CONTENT_CAPACITY {
            return Err(PacketError::ContentTooLong { len });
        }
        let mut out = [0u8;CONTENT_CAPACITY];
        let mut i: usize = 0;
        while i < len
            invariant
                i <= len <= CONTENT_CAPACITY,
                len == bytes@.len(),
                forall|j: int| 0 <= j < i ==> out@[j] == bytes@[j],
                forall|j: int| i <= j < CONTENT_CAPACITY ==> out@[j] == 0,
            decreases len - i,
        {
            out[i] = bytes[i];
            i = i + 1;
        }
        assert(out@ =~= padded(bytes@, CONTENT_CAPACITY as int));
        proof {
            lemma_padded_text(text@, CONTENT_CAPACITY as int);
        }
        Ok(PacketMessageContent(out))
    }

    /// The stored bytes: the text, then zeros.
    pub fn as_bytes(&self) -> (bytes: &[u8; CONTENT_CAPACITY])
        ensures
            bytes@ == self@,
            valid_utf8(strip_trailing_zeros(bytes@)),
    {
        proof {
            use_type_invariant(self);
        }
        &self.0
    }
}

impl core::str::FromStr for PacketMessageContent {
    type Err = PacketError;

    /// The same as [`PacketMessageContent::encode`].
    fn from_str(s: &str) -> (res: Result<PacketMessageContent, PacketError>)
        ensures
            match res {
                Ok(content) => {
                    &&& s.spec_bytes().len() <= CONTENT_CAPACITY
                    &&& content@ == padded(s.spec_bytes(), CONTENT_CAPACITY as int)
                    &&& content.text() == strip_trailing_nuls(s@)
                },
                Err(e) => {
                    &&& s.spec_bytes().len() > CONTENT_CAPACITY
                    &&& e == (PacketError::ContentTooLong { len: s.spec_bytes().len() as usize })
                },
            },
    {
        PacketMessageContent::encode(s)
    }
}

/// Calls `String::from_utf8`: the bytes as a string when they are UTF-8,
/// nothing when they are not. The string holds the characters that the bytes
/// encode.
#[verifier::external_body]
pub(crate) fn string_from_utf8(bytes: Vec<u8>) -> (res: Option<String>)
    ensures
        res is Some <==> valid_utf8(bytes@),
        res matches Some(s) ==> s@ == decode_utf8(bytes@),
{
    match String::from_utf8(bytes) {
        Ok(s) => Some(s),
        Err(_) => None,
    }
}

/// What stripping leaves is the start of the bytes, all that it takes away
/// is zero, and what it leaves does not end in a zero byte.
pub proof fn lemma_strip_trailing_zeros(bytes: Seq<u8>)
    ensures
        strip_trailing_zeros(bytes).len() <= bytes.len(),
        bytes == padded(strip_trailing_zeros(bytes), bytes.len() as int),
        strip_trailing_zeros(bytes).len() == 0 || strip_trailing_zeros(bytes).last() != 0,
    decreases bytes.len(),
{
    if bytes.len() > 0 && bytes.last() == 0 {
        lemma_strip_trailing_zeros(bytes.drop_last());
        let kept = strip_trailing_zeros(bytes);
        assert(bytes =~= padded(kept, bytes.len() as int)) by {
            assert(bytes.drop_last() == padded(kept, bytes.len() - 1));
            assert forall|i: int| 0 <= i < bytes.len() implies bytes[i] == padded(
                kept,
                bytes.len() as int,
            )[i] by {
                if i < bytes.len() - 1 {
                    assert(bytes[i] == bytes.drop_last()[i]);
                }
            }
        }
    } else {
        assert(bytes =~= padded(bytes, bytes.len() as int));
    }
}

/// Padding adds nothing that stripping does not take away again: from padded
/// bytes it leaves what it leaves from the bytes themselves.
pub proof fn lemma_strip_padded(text: Seq<u8>, size: int)
    requires
        text.len() <= size,
    ensures
        strip_trailing_zeros(padded(text, size)) == strip_trailing_zeros(text),
    decreases size - text.len(),
{
    if text.len() == size {
        assert(padded(text, size) =~= text);
    } else {
        let all = padded(text, size);
        assert(all.last() == 0);
        assert(all.drop_last() =~= padded(text, size - 1));
        lemma_strip_padded(text, size - 1);
    }
}

/// Bytes that do not end in a zero byte come back from padding and
/// stripping as they were.
pub proof fn lemma_strip_padded_exact(text: Seq<u8>, size: int)
    requires
        text.len() <= size,
        text.len() == 0 || text.last() != 0,
    ensures
        strip_trailing_zeros(padded(text, size)) == text,
{
    lemma_strip_padded(text, size);
}

/// The UTF-8 bytes of a text end in a zero byte just when the text ends in
/// the character NUL.
pub proof fn lemma_text_ends_in_zero(text: Seq<char>)
    requires
        text.len() > 0,
    ensures
        encode_utf8(text).len() > 0,
        encode_utf8(text).last() == 0 <==> text.last() == '\0',
    decreases text.len(),
{
    let first = encode_scalar(text[0] as u32);
    let rest = text.drop_first();
    lemma_scalar_ends_in_zero(text[0]);
    if rest.len() == 0 {
        assert(encode_utf8(rest) =~= Seq::<u8>::empty());
        assert(encode_utf8(text) =~= first);
    } else {
        lemma_text_ends_in_zero(rest);
        assert(encode_utf8(text).last() == encode_utf8(rest).last());
        assert(text.last() == rest.last());
    }
}

/// The UTF-8 bytes of one character end in a zero byte just when the
/// character is NUL, and NUL is the one zero byte.
proof fn lemma_scalar_ends_in_zero(c: char)
    ensures
        encode_scalar(c as u32).len() > 0,
        encode_scalar(c as u32).last() == 0 <==> c == '\0',
        c == '\0' ==> encode_scalar(c as u32) == seq![0u8],
{
    let v = c as u32;
    assert(v <= 0x7F ==> ((v & 0x7F) as u8 == 0 <==> v == 0)) by (bit_vector);
    assert(0x80u8 | (v & 0x3F) as u8 != 0) by (bit_vector);
    if c == '\0' {
        assert(encode_scalar(v) =~= seq![0u8]);
    }
}

/// The UTF-8 bytes of a text with one more character are the bytes of the
/// text, then the bytes of the character.
proof fn lemma_encode_push(text: Seq<char>, c: char)
    ensures
        encode_utf8(text.push(c)) == encode_utf8(text) + encode_scalar(c as u32),
    decreases text.len(),
{
    let all = text.push(c);
    if text.len() == 0 {
        assert(all.drop_first() =~= Seq::<char>::empty());
        assert(encode_utf8(all.drop_first()) =~= Seq::<u8>::empty());
        assert(encode_utf8(text) =~= Seq::<u8>::empty());
        assert(encode_utf8(all) =~= encode_utf8(text) + encode_scalar(c as u32));
    } else {
        assert(all.drop_first() =~= text.drop_first().push(c));
        lemma_encode_push(text.drop_first(), c);
        assert(encode_utf8(all) =~= encode_utf8(text) + encode_scalar(c as u32));
    }
}

/// Stripping the zero bytes from the end of the UTF-8 bytes of a text leaves
/// the UTF-8 bytes of the text without the NUL characters at its end.
pub proof fn lemma_strip_text(text: Seq<char>)
    ensures
        strip_trailing_zeros(encode_utf8(text)) == encode_utf8(strip_trailing_nuls(text)),
    decreases text.len(),
{
    if text.len() > 0 {
        lemma_text_ends_in_zero(text);
        if text.last() == '\0' {
            let shorter = text.drop_last();
            assert(text =~= shorter.push('\0'));
            lemma_encode_push(shorter, '\0');
            lemma_scalar_ends_in_zero('\0');
            assert(encode_utf8(text).drop_last() =~= encode_utf8(shorter));
            lemma_strip_text(shorter);
        }
    } else {
        assert(encode_utf8(text).len() == 0);
    }
}

/// What is read back from the padded UTF-8 bytes of a text: the bytes before
/// the padding are UTF-8, and they decode to the text without the NUL
/// characters at its end.
pub proof fn lemma_padded_text(text: Seq<char>, size: int)
    requires
        encode_utf8(text).len() <= size,
    ensures
        valid_utf8(strip_trailing_zeros(padded(encode_utf8(text), size))),
        decode_utf8(strip_trailing_zeros(padded(encode_utf8(text), size))) == strip_trailing_nuls(
            text,
        ),
{
    lemma_strip_padded(encode_utf8(text), size);
    lemma_strip_text(text);
    encode_utf8_valid_utf8(strip_trailing_nuls(text));
    encode_utf8_decode_utf8(strip_trailing_nuls(text));
}

} // verus!
