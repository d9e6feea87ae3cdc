//! Core types of the spwnmsg wire protocol.
//!
//! A peer speaks in frames of 1024 bytes. [`packet`] reads and writes the
//! fields of a frame, [`opcode`] and [`layout`] say which fields a frame has
//! and where, [`content`] pads the text of a message frame, and [`endian`]
//! turns an identifier into the eight bytes that it takes in a frame.
//!
//! The identifiers come from [`snowflake`]: 64-bit values that grow with
//! time and never repeat. [`shared`] puts a generator behind a lock for the
//! threads of a process, and [`clock`] is where a generator reads the time
//! and keeps the record of its readings.

pub mod clock;
pub mod content;
pub mod endian;
pub mod error;
pub mod layout;
pub mod opcode;
pub mod packet;
pub mod shared;
pub mod snowflake;
