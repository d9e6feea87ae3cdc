//! Where the fields of a frame lie.
//!
//! Every frame has the same size. Its first byte is the protocol version and
//! its second the opcode; the third is kept free. The opcode decides what
//! follows: identifiers of eight bytes each from byte 3 on and, in a message
//! frame, the text after the third identifier.

use vstd::prelude::*;

use crate::endian::ID_SIZE;

verus! {

/// Bytes in a frame.
pub const FRAME_SIZE: usize = 1024;

/// The protocol version that this library speaks.
pub const PROTOCOL_VERSION: u8 = 1;

/// Where the protocol version lies.
pub const VERSION_OFFSET: usize = 0;

/// Where the opcode lies.
pub const OPCODE_OFFSET: usize = 1;

/// Bytes before the first field of a payload.
pub const HEADER_SIZE: usize = 3;

/// Where the first identifier of a payload lies: the user id, or the session
/// id of a frame that carries nothing else.
pub const FIRST_ID_OFFSET: usize = HEADER_SIZE;

/// Where the second identifier lies: the message id of a message frame, the
/// timestamp of a ping or of a membership notice.
pub const SECOND_ID_OFFSET: usize = FIRST_ID_OFFSET + ID_SIZE;

/// Where the third identifier lies: the session id of a message frame.
pub const THIRD_ID_OFFSET: usize = SECOND_ID_OFFSET + ID_SIZE;

/// Where the text of a message frame begins.
pub const CONTENT_OFFSET: usize = THIRD_ID_OFFSET + ID_SIZE;

/// Bytes at the end of a message frame that no text reaches. They are
/// written as zeros, so that even the longest text is followed by padding.
pub const CONTENT_TAIL: usize = 3;

/// The most bytes that the text of a message frame can take.
pub const CONTENT_CAPACITY: usize = FRAME_SIZE - CONTENT_OFFSET - CONTENT_TAIL;

/// The constants have the values that the wire format fixes.
pub proof fn lemma_layout_values()
    ensures
        FRAME_SIZE == 1024,
        FIRST_ID_OFFSET == 3,
        SECOND_ID_OFFSET == 11,
        THIRD_ID_OFFSET == 19,
        CONTENT_OFFSET == 27,
        CONTENT_CAPACITY == 994,
{
}

} // verus!
