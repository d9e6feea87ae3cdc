//! What can go wrong while reading or filling a frame, and how it is put in
//! words.

use vstd::prelude::*;
use vstd::string::StringExecFns;

use crate::opcode::Opcode;

verus! {

/// Why a frame operation was refused.
#[derive(Debug, Clone, Copy, PartialEq, Eq, Structural)]
pub enum PacketError {
    /// The opcode byte of the frame names no opcode.
    UnknownOpcode { value: u8 },
    /// Text content was written to, or read from, a frame whose opcode byte
    /// is `value` and not that of a message.
    InvalidContentTarget { value: u8 },
    /// The text takes `len` bytes in UTF-8, more than a message frame holds.
    ContentTooLong { len: usize },
    /// The text bytes of a message frame are not UTF-8.
    MalformedContent,
}

/// The character of a decimal digit.
pub open spec fn digit(d: int) -> char
    recommends
        0 <= d < 10,
{
    if d == 0 {
        '0'
    } else if d == 1 {
        '1'
    } else if d == 2 {
        '2'
    } else if d == 3 {
        '3'
    } else if d == 4 {
        '4'
    } else if d == 5 {
        '5'
    } else if d == 6 {
        '6'
    } else if d == 7 {
        '7'
    } else if d == 8 {
        '8'
    } else {
        '9'
    }
}

/// A number in decimal digits, without leading zeros.
pub open spec fn decimal(n: int) -> Seq<char>
    recommends
        0 <= n,
    decreases n,
{
    if n < 10 {
        seq![digit(n)]
    } else {
        decimal(n / 10).push(digit(n % 10))
    }
}

/// What a message calls the type of a frame with the opcode byte `value`:
/// the name of the opcode or, where the byte names none, its number.
pub open spec fn frame_type(value: u8) -> Seq<char> {
    match Opcode::decode(value) {
        Some(op) => op.spec_name(),
        None => decimal(value as int),
    }
}

impl PacketError {
    /// What went wrong, in words.
    pub open spec fn spec_message(self) -> Seq<char> {
        match self {
            PacketError::UnknownOpcode { value } => "Opcode `"@ + decimal(value as int)
                + "` out of range"@,
            PacketError::InvalidContentTarget { value } =>
                "Tried to put content into a packet of type "@ + frame_type(value)
                    + ". Supported types are:\n                - Message"@,
            PacketError::ContentTooLong { .. } => "Malformed packet of type Message."@,
            PacketError::MalformedContent => "Malformed packet of type Message."@,
        }
    }

    /// What went wrong, in words.
    pub fn message(&self) -> (text: String)
        ensures
            text@ == self.spec_message(),
    {
        match self {
            PacketError::UnknownOpcode { value } => {
                let mut text = "Opcode `".to_owned();
                push_decimal(&mut text, *value);
                text.append("` out of range");
                text
            },
            PacketError::InvalidContentTarget { value } => {
                let mut text = "Tried to put content into a packet of type ".to_owned();
                match Opcode::from_byte(*value) {
                    Ok(op) => text.append(op.name()),
                    Err(_) => push_decimal(&mut text, *value),
                }
                text.append(". Supported types are:\n                - Message");
                text
            },
            PacketError::ContentTooLong { .. } => "Malformed packet of type Message.".to_owned(),
            PacketError::MalformedContent => "Malformed packet of type Message.".to_owned(),
        }
    }
}

/// Appends a number in decimal digits.
fn push_decimal(text: &mut String, value: u8)
    ensures
        final(text)@ == old(text)@ + decimal(value as int),
{
    reveal_with_fuel(decimal, 3);
    if value >= 100 {
        text.append(digit_text(value / 100));
    }
    if value >= 10 {
        text.append(digit_text(value / 10 % 10));
    }
    text.append(digit_text(value % 10));
    assert(text@ =~= old(text)@ + decimal(value as int));
}

/// A decimal digit as text.
fn digit_text(d: u8) -> (text: &'static str)
    requires
        d < 10,
    ensures
        text@ == seq![digit(d as int)],
{
    proof {
        reveal_strlit("0");
        reveal_strlit("1");
        reveal_strlit("2");
        reveal_strlit("3");
        reveal_strlit("4");
        reveal_strlit("5");
        reveal_strlit("6");
        reveal_strlit("7");
        reveal_strlit("8");
        reveal_strlit("9");
    }
    let text = match d {
        0 => "0",
        1 => "1",
        2 => "2",
        3 => "3",
        4 => "4",
        5 => "5",
        6 => "6",
        7 => "7",
        8 => "8",
        _ => "9",
    };
    assert(text@ =~= seq![digit(d as int)]);
    text
}

} // verus!
