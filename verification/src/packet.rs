//! A frame and the typed access to its fields.

use vstd::prelude::*;
use vstd::utf8::decode_utf8;
use vstd::utf8::encode_utf8;
use vstd::utf8::valid_utf8;

use crate::content::lemma_padded_text;
use crate::content::lemma_strip_padded;
use crate::content::padded;
use crate::content::string_from_utf8;
use crate::content::strip_trailing_nuls;
use crate::content::strip_trailing_zeros;
use crate::content::zeros;
use crate::content::PacketMessageContent;
use crate::endian::id_from_bytes;
use crate::endian::id_to_bytes;
use crate::endian::le_bytes;
use crate::endian::le_value;
use crate::endian::lemma_value_of_bytes;
use crate::endian::ID_SIZE;
use crate::error::PacketError;
use crate::layout::CONTENT_CAPACITY;
use crate::layout::CONTENT_OFFSET;
use crate::layout::CONTENT_TAIL;
use crate::layout::FRAME_SIZE;
use crate::layout::OPCODE_OFFSET;
use crate::layout::VERSION_OFFSET;
use crate::opcode::Opcode;

verus! {

/// `frame` with the bytes from `at` on replaced by those of `field`; all
/// other bytes stay.
pub open spec fn splice(frame: Seq<u8>, at: int, field: Seq<u8>) -> Seq<u8>
    recommends
        0 <= at,
        at + field.len() <= frame.len(),
{
    Seq::new(
        frame.len(),
        |i: int|
            if at <= i < at + field.len() {
                field[i - at]
            } else {
                frame[i]
            },
    )
}

/// The opcode of a frame, or why it has none.
pub open spec fn frame_opcode(frame: Seq<u8>) -> Result<Opcode, PacketError>
    recommends
        frame.len() == FRAME_SIZE,
{
    match Opcode::decode(frame[OPCODE_OFFSET as int]) {
        Some(op) => Ok(op),
        None => Err(PacketError::UnknownOpcode { value: frame[OPCODE_OFFSET as int] }),
    }
}

/// The bytes of a frame's text: what follows the identifiers of a message
/// frame, without the zero bytes at the end.
pub open spec fn frame_text_bytes(frame: Seq<u8>) -> Seq<u8>
    recommends
        frame.len() == FRAME_SIZE,
{
    strip_trailing_zeros(frame.subrange(CONTENT_OFFSET as int, FRAME_SIZE as int))
}

/// The text of a frame, or why it has none: only a message frame has text,
/// and its text bytes must be UTF-8.
pub open spec fn frame_content(frame: Seq<u8>) -> Result<Seq<char>, PacketError>
    recommends
        frame.len() == FRAME_SIZE,
{
    if frame[OPCODE_OFFSET as int] != Opcode::Message.spec_to_byte() {
        Err(PacketError::InvalidContentTarget { value: frame[OPCODE_OFFSET as int] })
    } else if !valid_utf8(frame_text_bytes(frame)) {
        Err(PacketError::MalformedContent)
    } else {
        Ok(decode_utf8(frame_text_bytes(frame)))
    }
}

/// A frame after `content` was written to it: the padded text from the
/// content offset on, then zeros to the end of the frame.
pub open spec fn frame_with_content(frame: Seq<u8>, content: Seq<u8>) -> Seq<u8>
    recommends
        frame.len() == FRAME_SIZE,
        content.len() == CONTENT_CAPACITY,
{
    splice(frame, CONTENT_OFFSET as int, content + zeros(CONTENT_TAIL as int))
}

/// One frame: the unit that goes over the wire.
pub struct Packet(pub [u8; FRAME_SIZE]);

impl View for Packet {
    type V = Seq<u8>;

    open spec fn view(&self) -> Seq<u8> {
        self.0@
    }
}

impl Packet {
    /// A view over `inner`. Any bytes make a frame; what they mean is
    /// checked when a field is read.
    pub fn new(inner: [u8; FRAME_SIZE]) -> (packet: Packet)
        ensures
            packet.0 == inner,
    {
        Packet(inner)
    }

    /// The opcode of the frame. A byte that names no opcode is reported as
    /// `UnknownOpcode`.
    pub fn op(&self) -> (res: Result<Opcode, PacketError>)
        ensures
            res == frame_opcode(self@),
            res is Ok <==> self@[OPCODE_OFFSET as int] <= 6,
    {
        Opcode::from_byte(self.0[OPCODE_OFFSET])
    }

    /// The protocol version of the frame.
    pub fn version(&self) -> (version: u8)
        ensures
            version == self@[VERSION_OFFSET as int],
    {
        self.0[VERSION_OFFSET]
    }

    /// The eight bytes of the identifier that begins at `start`.
    pub fn snowflake(&self, start: usize) -> (sf: [u8; 8])
        requires
            start + ID_SIZE <= FRAME_SIZE,
        ensures
            sf@ == self@.subrange(start as int, start + ID_SIZE),
    {
        let sf = [
            self.0[start],
            self.0[start + 1],
            self.0[start + 2],
            self.0[start + 3],
            self.0[start + 4],
            self.0[start + 5],
            self.0[start + 6],
            self.0[start + 7],
        ];
        sf
    }

    /// The identifier that begins at `offset`, read least significant byte
    /// first.
    pub fn identifier(&self, offset: usize) -> (id: u64)
        requires
            offset + ID_SIZE <= FRAME_SIZE,
        ensures
            id == le_value(self@.subrange(offset as int, offset + ID_SIZE)),
    {
        id_from_bytes(self.snowflake(offset))
    }

    /// Writes the opcode byte. The payload is left as it was.
    pub fn set_op(&mut self, op: Opcode)
        ensures
            final(self)@ == old(self)@.update(OPCODE_OFFSET as int, op.spec_to_byte()),
    {
        self.0[OPCODE_OFFSET] = op.to_byte();
    }

    /// Writes the protocol version.
    pub fn set_version(&mut self, version: u8)
        ensures
            final(self)@ == old(self)@.update(VERSION_OFFSET as int, version),
    {
        self.0[VERSION_OFFSET] = version;
    }

    /// Writes the eight bytes of an identifier from `start_offset` on.
    pub fn set_snowflake(&mut self, sf: [u8; 8], start_offset: usize)
        requires
            start_offset + ID_SIZE <= FRAME_SIZE,
        ensures
            final(self)@ == splice(old(self)@, start_offset as int, sf@),
    {
        let mut i: usize = 0;
        while i < ID_SIZE
            invariant
                i <= ID_SIZE,
                start_offset + ID_SIZE <= FRAME_SIZE,
                self@ == splice(old(self)@, start_offset as int, sf@.take(i as int)),
            decreases ID_SIZE - i,
        {
            self.0[start_offset + i] = sf[i];
            i = i + 1;
        }
    }

    /// Writes an identifier from `offset` on, least significant byte first.
    pub fn set_identifier(&mut self, id: u64, offset: usize)
        requires
            offset + ID_SIZE <= FRAME_SIZE,
        ensures
            final(self)@ == splice(old(self)@, offset as int, le_bytes(id)),
    {
        self.set_snowflake(id_to_bytes(id), offset);
    }

    /// Writes the text of a message frame: everything from the content
    /// offset to the end of the frame is overwritten, and the frame then
    /// reads as the text of `content`. A frame with any other opcode byte is
    /// left as it is and the call is refused.
    pub fn set_content(&mut self, content: PacketMessageContent) -> (res: Result<(), PacketError>)
        ensures
            old(self)@[OPCODE_OFFSET as int] == Opcode::Message.spec_to_byte() ==> {
                &&& res is Ok
                &&& final(self)@ == frame_with_content(old(self)@, content@)
                &&& frame_content(final(self)@) == Ok::<Seq<char>, PacketError>(content.text())
            },
            old(self)@[OPCODE_OFFSET as int] != Opcode::Message.spec_to_byte() ==> {
                &&& res == Err::<(), PacketError>(
                    PacketError::InvalidContentTarget { value: old(self)@[OPCODE_OFFSET as int] },
                )
                &&& final(self)@ == old(self)@
            },
    {
        let value: u8 = self.0[OPCODE_OFFSET];
        if value != Opcode::Message.to_byte() {
            return Err(PacketError::InvalidContentTarget { value });
        }
        let bytes = content.as_bytes();
        let ghost field = content@ + zeros(CONTENT_TAIL as int);
        let mut i: usize = 0;
        while i < CONTENT_CAPACITY
            invariant
                i <= CONTENT_CAPACITY,
                bytes@ == content@,
                field == content@ + zeros(CONTENT_TAIL as int),
                self@ == splice(old(self)@, CONTENT_OFFSET as int, field.take(i as int)),
            decreases CONTENT_CAPACITY - i,
        {
            self.0[CONTENT_OFFSET + i] = bytes[i];
            i = i + 1;
        }
        while i < CONTENT_CAPACITY + CONTENT_TAIL
            invariant
                CONTENT_CAPACITY <= i <= CONTENT_CAPACITY + CONTENT_TAIL,
                field == content@ + zeros(CONTENT_TAIL as int),
                content@.len() == CONTENT_CAPACITY,
                self@ == splice(old(self)@, CONTENT_OFFSET as int, field.take(i as int)),
            decreases CONTENT_CAPACITY + CONTENT_TAIL - i,
        {
            self.0[CONTENT_OFFSET + i] = 0;
            i = i + 1;
        }
        assert(field.take(i as int) =~= field);
        proof {
            lemma_written_text_bytes(old(self)@, content@);
        }
        Ok(())
    }

    /// The text of a message frame: the bytes after the identifiers, without
    /// the zero bytes at the end, as a string.
    pub fn content(&self) -> (res: Result<String, PacketError>)
        ensures
            match res {
                Ok(text) => frame_content(self@) == Ok::<Seq<char>, PacketError>(text@),
                Err(e) => frame_content(self@) == Err::<Seq<char>, PacketError>(e),
            },
    {
        let value: u8 = self.0[OPCODE_OFFSET];
        if value != Opcode::Message.to_byte() {
            return Err(PacketError::InvalidContentTarget { value });
        }
        let ghost payload = self@.subrange(CONTENT_OFFSET as int, FRAME_SIZE as int);
        let mut end: usize = FRAME_SIZE;
        while end > CONTENT_OFFSET && self.0[end - 1] == 0
            invariant
                CONTENT_OFFSET <= end <= FRAME_SIZE,
                payload == self@.subrange(CONTENT_OFFSET as int, FRAME_SIZE as int),
                strip_trailing_zeros(payload) == strip_trailing_zeros(
                    self@.subrange(CONTENT_OFFSET as int, end as int),
                ),
            decreases end,
        {
            assert(self@.subrange(CONTENT_OFFSET as int, end as int).drop_last()
                =~= self@.subrange(CONTENT_OFFSET as int, end - 1));
            end = end - 1;
        }
        let mut bytes: Vec<u8> = Vec::new();
        let mut i: usize = CONTENT_OFFSET;
        while i < end
            invariant
                CONTENT_OFFSET <= i <= end <= FRAME_SIZE,
                bytes@ == self@.subrange(CONTENT_OFFSET as int, i as int),
            decreases end - i,
        {
            bytes.push(self.0[i]);
            i = i + 1;
        }
        match string_from_utf8(bytes) {
            Some(text) => Ok(text),
            None => Err(PacketError::MalformedContent),
        }
    }
}

impl From<Packet> for [u8; FRAME_SIZE] {
    /// The bytes of the frame.
    fn from(packet: Packet) -> (bytes: [u8; FRAME_SIZE]) {
        packet.0
    }
}

impl vstd::std_specs::convert::FromSpecImpl<Packet> for [u8; FRAME_SIZE] {
    open spec fn obeys_from_spec() -> bool {
        true
    }

    open spec fn from_spec(packet: Packet) -> [u8; FRAME_SIZE] {
        packet.0
    }
}

/// A frame whose opcode byte is that of `op` reads as `op`, whatever its
/// other bytes are.
pub proof fn lemma_opcode_read_back(frame: Seq<u8>, op: Opcode)
    requires
        frame.len() == FRAME_SIZE,
        frame[OPCODE_OFFSET as int] == op.spec_to_byte(),
    ensures
        frame_opcode(frame) == Ok::<Opcode, PacketError>(op),
{
}

/// A frame whose opcode byte is above 6 has no opcode.
pub proof fn lemma_unknown_opcode(frame: Seq<u8>)
    requires
        frame.len() == FRAME_SIZE,
        frame[OPCODE_OFFSET as int] > 6,
    ensures
        frame_opcode(frame) == Err::<Opcode, PacketError>(
            PacketError::UnknownOpcode { value: frame[OPCODE_OFFSET as int] },
        ),
{
}

/// A field that was written is read back from where it was written, and a
/// stretch of the frame that it does not touch reads as before.
pub proof fn lemma_splice_read_back(frame: Seq<u8>, at: int, field: Seq<u8>, from: int, to: int)
    requires
        0 <= at,
        at + field.len() <= frame.len(),
        0 <= from <= to <= frame.len(),
    ensures
        splice(frame, at, field).len() == frame.len(),
        splice(frame, at, field).subrange(at, at + field.len()) == field,
        to <= at || at + field.len() <= from ==> splice(frame, at, field).subrange(from, to)
            == frame.subrange(from, to),
{
}

/// An identifier that was written at an offset is read back from it.
pub proof fn lemma_identifier_read_back(frame: Seq<u8>, offset: int, id: u64)
    requires
        frame.len() == FRAME_SIZE,
        0 <= offset,
        offset + ID_SIZE <= FRAME_SIZE,
    ensures
        le_value(splice(frame, offset, le_bytes(id)).subrange(offset, offset + ID_SIZE)) == id,
{
    lemma_value_of_bytes(id);
    lemma_splice_read_back(frame, offset, le_bytes(id), 0, 0);
}

/// Writing text to a message frame leaves the header and the three
/// identifiers as they were.
pub proof fn lemma_content_keeps_fields(frame: Seq<u8>, content: Seq<u8>)
    requires
        frame.len() == FRAME_SIZE,
        content.len() == CONTENT_CAPACITY,
    ensures
        frame_with_content(frame, content).len() == FRAME_SIZE,
        frame_with_content(frame, content).subrange(0, CONTENT_OFFSET as int) == frame.subrange(
            0,
            CONTENT_OFFSET as int,
        ),
        frame_opcode(frame_with_content(frame, content)) == frame_opcode(frame),
{
    lemma_splice_read_back(
        frame,
        CONTENT_OFFSET as int,
        content + zeros(CONTENT_TAIL as int),
        0,
        CONTENT_OFFSET as int,
    );
}

/// The text bytes of a frame that content was written to are those of the
/// content: what it holds before its padding.
pub proof fn lemma_written_text_bytes(frame: Seq<u8>, content: Seq<u8>)
    requires
        frame.len() == FRAME_SIZE,
        content.len() == CONTENT_CAPACITY,
    ensures
        frame_text_bytes(frame_with_content(frame, content)) == strip_trailing_zeros(content),
{
    let field = content + zeros(CONTENT_TAIL as int);
    lemma_splice_read_back(frame, CONTENT_OFFSET as int, field, 0, 0);
    lemma_strip_padded(content, FRAME_SIZE - CONTENT_OFFSET);
}

/// What is read from a message frame after a text of at most 994 bytes was
/// written to it: the text without the NUL characters at its end.
pub proof fn lemma_content_read_back(frame: Seq<u8>, text: Seq<char>)
    requires
        frame.len() == FRAME_SIZE,
        frame[OPCODE_OFFSET as int] == Opcode::Message.spec_to_byte(),
        encode_utf8(text).len() <= CONTENT_CAPACITY,
    ensures
        frame_content(
            frame_with_content(frame, padded(encode_utf8(text), CONTENT_CAPACITY as int)),
        ) == Ok::<Seq<char>, PacketError>(strip_trailing_nuls(text)),
{
    let content = padded(encode_utf8(text), CONTENT_CAPACITY as int);
    lemma_written_text_bytes(frame, content);
    lemma_content_keeps_fields(frame, content);
    lemma_padded_text(text, CONTENT_CAPACITY as int);
}

/// A text of at most 994 bytes that does not end in the character NUL is
/// read from a message frame exactly as it was written to it.
pub proof fn lemma_content_round_trip(frame: Seq<u8>, text: Seq<char>)
    requires
        frame.len() == FRAME_SIZE,
        frame[OPCODE_OFFSET as int] == Opcode::Message.spec_to_byte(),
        encode_utf8(text).len() <= CONTENT_CAPACITY,
        text.len() == 0 || text.last() != '\0',
    ensures
        frame_content(
            frame_with_content(frame, padded(encode_utf8(text), CONTENT_CAPACITY as int)),
        ) == Ok::<Seq<char>, PacketError>(text),
{
    lemma_content_read_back(frame, text);
}

} // verus!
