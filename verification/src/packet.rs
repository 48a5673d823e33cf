//! Inbound frame decoding: one raw HEADER..END byte chunk viewed as
//! direction byte, opcode, big-endian declared length, payload, trailing
//! checksum and END marker.

use crate::frame::{decode_command, invalid_command_rep, Command, FrameError};
use crate::text::{byte_list_rep, dec_rep, hex_byte_rep, push_byte_list, push_dec, push_hex_byte};
use vstd::prelude::*;
use vstd::string::StringExecFns;

verus! {

/// The payload length a chunk declares in its big-endian length field.
pub open spec fn declared_len(raw: Seq<u8>) -> nat
    recommends
        raw.len() >= 5,
{
    (raw[3] as nat) * 256 + (raw[4] as nat)
}

/// A chunk is well formed when its total length matches the declared
/// payload length plus the five leading bytes, the checksum and the END.
pub open spec fn packet_valid(raw: Seq<u8>) -> bool {
    raw.len() >= 5 && raw.len() == 7 + declared_len(raw)
}

/// The payload bytes of a chunk.
pub open spec fn payload_rep(raw: Seq<u8>) -> Seq<u8>
    recommends
        raw.len() >= 5,
        5 + declared_len(raw) <= raw.len(),
{
    raw.subrange(5, 5 + declared_len(raw) as int)
}

/// The text a packet displays: its payload decoded as UTF-8 where the
/// payload is valid UTF-8, a fixed notice else.
pub open spec fn packet_text_rep(raw: Seq<u8>) -> Seq<char> {
    if vstd::utf8::valid_utf8(payload_rep(raw)) {
        vstd::utf8::decode_utf8(payload_rep(raw))
    } else {
        ("Invalid UTF-8")@
    }
}

/// The diagnostic rendering of a packet: direction and opcode in hex,
/// declared length in decimal, payload as a byte list.
pub open spec fn packet_debug_rep(raw: Seq<u8>) -> Seq<char>
    recommends
        raw.len() >= 5,
        5 + declared_len(raw) <= raw.len(),
{
    ("Tipo: ")@ + hex_byte_rep(raw[1]) + (", Comando: ")@ + hex_byte_rep(raw[2]) + (
    ", Lunghezza: ")@ + dec_rep(declared_len(raw)) + (" - Dato: ")@ + byte_list_rep(
        payload_rep(raw),
    )
}

/// Relies on std's str::from_utf8: it accepts exactly the valid UTF-8 byte
/// sequences and decodes them to their character sequence.
#[verifier::external_body]
fn utf8_to_string(bytes: &[u8]) -> (r: Option<String>)
    ensures
        r is Some <==> vstd::utf8::valid_utf8(bytes@),
        r matches Some(s) ==> s@ == vstd::utf8::decode_utf8(bytes@),
{
    match std::str::from_utf8(bytes) {
        Ok(t) => Some(t.to_string()),
        Err(_) => None,
    }
}

/// One decoded inbound frame, stored as its raw HEADER..END byte chunk.
pub struct Packet {
    raw_data: Vec<u8>,
}

impl View for Packet {
    type V = Seq<u8>;

    closed spec fn view(&self) -> Seq<u8> {
        self.raw_data@
    }
}

impl Packet {
    /// Wraps one raw chunk.
    pub fn new(raw_data: Vec<u8>) -> (p: Packet)
        ensures
            p@ == raw_data@,
    {
        Packet { raw_data }
    }

    /// The direction byte.
    pub fn frame_type(&self) -> (r: u8)
        requires
            self@.len() >= 2,
        ensures
            r == self@[1],
    {
        self.raw_data[1]
    }

    /// The opcode byte.
    pub fn command_code(&self) -> (r: u8)
        requires
            self@.len() >= 3,
        ensures
            r == self@[2],
    {
        self.raw_data[2]
    }

    /// The declared payload length, read big-endian.
    pub fn data_len(&self) -> (r: u16)
        requires
            self@.len() >= 5,
        ensures
            r as nat == declared_len(self@),
    {
        let hi = self.raw_data[3];
        let lo = self.raw_data[4];
        proof {
            assert(((hi as u16) << 8) | (lo as u16) == (hi as u16) * 256 + (lo as u16))
                by (bit_vector);
        }
        ((hi as u16) << 8) | (lo as u16)
    }

    /// The payload bytes, copied out of the chunk.
    pub fn get_data(&self) -> (r: Vec<u8>)
        requires
            self@.len() >= 5,
            5 + declared_len(self@) <= self@.len(),
        ensures
            r@ == payload_rep(self@),
    {
        let len = self.data_len() as usize;
        let mut data: Vec<u8> = Vec::new();
        let mut i: usize = 0;
        while i < len
            invariant
                self@.len() >= 5,
                5 + declared_len(self@) <= self@.len(),
                len == declared_len(self@),
                i <= len,
                data@ == self@.subrange(5, 5 + i as int),
            decreases len - i,
        {
            data.push(self.raw_data[5 + i]);
            proof {
                assert(self@.subrange(5, 5 + (i + 1) as int) =~= self@.subrange(5, 5 + i as int)
                    + seq![self@[5 + i as int]]);
            }
            i = i + 1;
        }
        proof {
            assert(data@ =~= payload_rep(self@));
        }
        data
    }

    /// Whether the chunk's total length matches its declared length field.
    pub fn is_valid(&self) -> (r: bool)
        ensures
            r == packet_valid(self@),
    {
        if self.raw_data.len() < 5 {
            return false;
        }
        5 + 2 + self.data_len() as usize == self.raw_data.len()
    }

    /// The diagnostic rendering: direction and opcode in hex, declared
    /// length in decimal, payload as a byte list.
    pub fn debug(&self) -> (r: String)
        requires
            self@.len() >= 5,
            5 + declared_len(self@) <= self@.len(),
        ensures
            r@ == packet_debug_rep(self@),
    {
        let mut s = String::from_str("Tipo: ");
        push_hex_byte(&mut s, self.frame_type());
        s.append(", Comando: ");
        push_hex_byte(&mut s, self.command_code());
        s.append(", Lunghezza: ");
        push_dec(&mut s, self.data_len() as u64);
        s.append(" - Dato: ");
        let data = self.get_data();
        push_byte_list(&mut s, data.as_slice());
        proof {
            assert(s@ =~= packet_debug_rep(self@));
        }
        s
    }

    /// The packet's payload as text: its UTF-8 decoding where the payload
    /// is valid UTF-8, a fixed notice else.
    pub fn text(&self) -> (r: String)
        requires
            self@.len() >= 5,
            5 + declared_len(self@) <= self@.len(),
        ensures
            r@ == packet_text_rep(self@),
    {
        let data = self.get_data();
        match utf8_to_string(data.as_slice()) {
            Some(s) => s,
            None => String::from_str("Invalid UTF-8"),
        }
    }

    /// The command this packet answers, decoded from its opcode and the
    /// first byte after the length field.
    pub fn command(&self) -> (r: Result<Command, FrameError>)
        requires
            self@.len() >= 6,
        ensures
            r matches Ok(c) ==> decode_command(self@[2], self@[5]) == Some(c),
            r matches Err(FrameError::InvalidCommand(m)) ==> decode_command(self@[2], self@[5])
                is None && m@ == invalid_command_rep(self@[2], self@[5]),
    {
        Command::from_tuple((vec![self.command_code()], vec![self.raw_data[5]]))
    }
}

} // verus!
