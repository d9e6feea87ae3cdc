//! The closed set of frame kinds and the byte each one has on the wire.

use vstd::prelude::*;

use crate::endian::ID_SIZE;
use crate::error::PacketError;
use crate::layout::FRAME_SIZE;
use crate::layout::HEADER_SIZE;

verus! {

/// The kind of a frame. It selects the layout of the bytes after the header.
#[derive(Debug, Clone, Copy, PartialEq, Eq, Structural)]
pub enum Opcode {
    /// User id at 3, timestamp in milliseconds at 11.
    Ping,
    /// The answer that all went well. No payload.
    Okay,
    /// User id at 3, timestamp at 11.
    MemberJoin,
    /// User id at 3, timestamp at 11.
    MemberLeave,
    /// User id at 3, message id at 11, session id at 19, text from 27 on.
    Message,
    /// Opaque 16-byte token at 3.
    Login,
    /// Session id at 3.
    LoginOk,
}

impl Opcode {
    /// The byte that stands for this opcode in a frame.
    pub open spec fn spec_to_byte(self) -> u8 {
        match self {
            Opcode::Ping => 0,
            Opcode::Okay => 1,
            Opcode::MemberJoin => 2,
            Opcode::MemberLeave => 3,
            Opcode::Message => 4,
            Opcode::Login => 5,
            Opcode::LoginOk => 6,
        }
    }

    /// The opcode that a byte stands for, if it stands for one.
    pub open spec fn decode(value: u8) -> Option<Opcode> {
        if value == 0 {
            Some(Opcode::Ping)
        } else if value == 1 {
            Some(Opcode::Okay)
        } else if value == 2 {
            Some(Opcode::MemberJoin)
        } else if value == 3 {
            Some(Opcode::MemberLeave)
        } else if value == 4 {
            Some(Opcode::Message)
        } else if value == 5 {
            Some(Opcode::Login)
        } else if value == 6 {
            Some(Opcode::LoginOk)
        } else {
            None
        }
    }

    /// The name of the opcode, as messages print it.
    pub open spec fn spec_name(self) -> Seq<char> {
        match self {
            Opcode::Ping => "Ping"@,
            Opcode::Okay => "Ok"@,
            Opcode::MemberJoin => "MemberJoin"@,
            Opcode::MemberLeave => "MemberLeave"@,
            Opcode::Message => "Message"@,
            Opcode::Login => "Login"@,
            Opcode::LoginOk => "LoginOk"@,
        }
    }

    /// The name of the opcode, as messages print it.
    pub fn name(self) -> (name: &'static str)
        ensures
            name@ == self.spec_name(),
    {
        match self {
            Opcode::Ping => "Ping",
            Opcode::Okay => "Ok",
            Opcode::MemberJoin => "MemberJoin",
            Opcode::MemberLeave => "MemberLeave",
            Opcode::Message => "Message",
            Opcode::Login => "Login",
            Opcode::LoginOk => "LoginOk",
        }
    }

    /// Bytes after the header that a frame of this kind gives a meaning to:
    /// its identifiers, its token or, in a message frame, everything up to
    /// the end of the frame.
    pub open spec fn spec_payload_len(self) -> usize {
        match self {
            Opcode::Ping => 16,
            Opcode::Okay => 0,
            Opcode::MemberJoin => 16,
            Opcode::MemberLeave => 16,
            Opcode::Message => 1021,
            Opcode::Login => 16,
            Opcode::LoginOk => 8,
        }
    }

    /// Bytes after the header that a frame of this kind gives a meaning to.
    /// A field that ends beyond them is not part of the frame's payload.
    #[verifier::when_used_as_spec(spec_payload_len)]
    pub fn payload_len(self) -> (len: usize)
        ensures
            len == self.spec_payload_len(),
            HEADER_SIZE + len <= FRAME_SIZE,
    {
        match self {
            Opcode::Ping | Opcode::MemberJoin | Opcode::MemberLeave | Opcode::Login => 2 * ID_SIZE,
            Opcode::Okay => 0,
            Opcode::Message => FRAME_SIZE - HEADER_SIZE,
            Opcode::LoginOk => ID_SIZE,
        }
    }

    /// The byte that stands for this opcode in a frame.
    #[verifier::when_used_as_spec(spec_to_byte)]
    pub fn to_byte(self) -> (value: u8)
        ensures
            value == self.spec_to_byte(),
            value <= 6,
    {
        match self {
            Opcode::Ping => 0,
            Opcode::Okay => 1,
            Opcode::MemberJoin => 2,
            Opcode::MemberLeave => 3,
            Opcode::Message => 4,
            Opcode::Login => 5,
            Opcode::LoginOk => 6,
        }
    }

    /// Reads an opcode from its byte. A byte above 6 names no opcode and is
    /// reported, never acted upon.
    pub fn from_byte(value: u8) -> (res: Result<Opcode, PacketError>)
        ensures
            res == match Opcode::decode(value) {
                Some(op) => Ok::<Opcode, PacketError>(op),
                None => Err(PacketError::UnknownOpcode { value }),
            },
            res is Ok <==> value <= 6,
    {
        match value {
            0 => Ok(Opcode::Ping),
            1 => Ok(Opcode::Okay),
            2 => Ok(Opcode::MemberJoin),
            3 => Ok(Opcode::MemberLeave),
            4 => Ok(Opcode::Message),
            5 => Ok(Opcode::Login),
            6 => Ok(Opcode::LoginOk),
            _ => Err(PacketError::UnknownOpcode { value }),
        }
    }
}

impl TryFrom<u8> for Opcode {
    type Error = PacketError;

    /// The same as [`Opcode::from_byte`].
    fn try_from(value: u8) -> (res: Result<Opcode, PacketError>) {
        Opcode::from_byte(value)
    }
}

impl vstd::std_specs::convert::TryFromSpecImpl<u8> for Opcode {
    open spec fn obeys_try_from_spec() -> bool {
        true
    }

    open spec fn try_from_spec(value: u8) -> Result<Opcode, PacketError> {
        match Opcode::decode(value) {
            Some(op) => Ok(op),
            None => Err(PacketError::UnknownOpcode { value }),
        }
    }
}

impl From<Opcode> for u8 {
    /// The same as [`Opcode::to_byte`].
    fn from(op: Opcode) -> (value: u8) {
        op.to_byte()
    }
}

impl vstd::std_specs::convert::FromSpecImpl<Opcode> for u8 {
    open spec fn obeys_from_spec() -> bool {
        true
    }

    open spec fn from_spec(op: Opcode) -> u8 {
        op.spec_to_byte()
    }
}

/// Reading back the byte of an opcode gives that opcode, and only the bytes
/// 0 to 6 are the byte of one.
pub proof fn lemma_opcode_byte_round_trip(op: Opcode)
    ensures
        Opcode::decode(op.spec_to_byte()) == Some(op),
        op.spec_to_byte() <= 6,
{
}

/// A byte that decodes to an opcode is the byte of that opcode.
pub proof fn lemma_opcode_decode_inverse(value: u8)
    ensures
        Opcode::decode(value) matches Some(op) ==> op.spec_to_byte() == value,
        Opcode::decode(value) is Some <==> value <= 6,
{
}

} // verus!
