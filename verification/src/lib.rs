//! Protocol engine for a UHF RFID reader module that speaks a framed,
//! checksummed request/response protocol over an asynchronous byte stream.
//!
//! The crate covers command-to-frame encoding, recovery of discrete frames
//! from an arbitrarily fragmented byte stream, packet decoding, and the
//! tag-record model with its dedup-by-EPC identity.

pub mod assembler;
pub mod connector;
pub mod frame;
pub mod packet;
pub mod rfid;
pub mod text;
pub mod transport;
