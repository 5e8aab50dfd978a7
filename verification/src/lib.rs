//! Codec for the short-frame variant of the VESC motor-controller serial
//! protocol: typed commands are encoded into length-prefixed, CRC-protected
//! byte frames, and received frames are decoded into typed telemetry replies.
//!
//! Wire values that the protocol transmits as scaled fixed-point integers
//! (a float multiplied by a fixed scale and truncated toward zero) are held
//! here as the scaled integers themselves; converting them to and from
//! floating point is left to the caller.

pub mod command;
pub mod laws;
pub mod packer;

pub use command::{decode, encode, Command, CommandReply, Error, Values, ValuesMask};
pub use packer::{Packer, Unpacker};
