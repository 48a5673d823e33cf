//! Outbound command encoding: opcodes, parameter bytes, and the wire frame
//! `[HEADER, DIRECTION, OPCODE, LEN_HI, LEN_LO, PARAMS.., CHECKSUM, END]`,
//! where the checksum is the low byte of the sum of the bytes from the
//! opcode through the last parameter byte.

use crate::text::{centi_rep, dec_rep, push_dec};
use vstd::prelude::*;
use vstd::string::StringExecFns;

verus! {

/// Frame delimiter that opens every frame on the wire.
pub const R200_FRAME_HEADER: u8 = 0xAA;

/// Frame delimiter that closes every frame on the wire.
pub const R200_FRAME_END: u8 = 0xDD;

/// Direction byte of a host-to-device request.
pub const FRAME_TYPE_SEND_COMMAND: u8 = 0x00;

/// Opcode of the reader/writer module information query.
pub const INSTRUCTION_READER_WRITER_MODULE_INFO: u8 = 0x03;

/// Module-information sub-code selecting the hardware version.
pub const READ_WRITE_INFO_HARDWARE_VERSION: u8 = 0x00;

/// Module-information sub-code selecting the software version.
pub const READ_WRITE_INFO_SOFTWARE_VERSION: u8 = 0x01;

/// Module-information sub-code selecting the manufacturer.
pub const READ_WRITE_INFO_MANUFACTURER: u8 = 0x02;

/// Failure of the wire-to-command decoding direction.
#[derive(Debug)]
pub enum FrameError {
    InvalidCommand(String),
}

impl FrameError {
    /// The error rendered as text, as a maintainer would log it.
    pub fn describe(&self) -> (r: String)
        ensures
            self matches FrameError::InvalidCommand(m) && r@ == ("Invalid command: ")@ + m@,
    {
        match self {
            FrameError::InvalidCommand(m) => {
                let mut s = String::from_str("Invalid command: ");
                s.append(m.as_str());
                s
            },
        }
    }
}

/// One logical request to the reader. The transmit power is carried in
/// centi-units (the wire value, the physical value scaled by 100).
#[derive(Clone, Copy, Debug)]
pub enum Command {
    GetWorkingChannel,
    GetWorkingArea,
    AcquireTransmitPower,
    SetTrasmissionPower(u16),
    HardwareVersion,
    SoftwareVersion,
    Manufacturer,
    SinglePollingInstruction,
    MultiplePollingInstruction(u16),
    StopMultiplePollingInstruction,
}

/// The wire opcode of a command.
pub open spec fn opcode_of(c: Command) -> u8 {
    match c {
        Command::GetWorkingChannel => 0xAA,
        Command::GetWorkingArea => 0x08,
        Command::AcquireTransmitPower => 0xB7,
        Command::SetTrasmissionPower(_) => 0xB6,
        Command::HardwareVersion => 0x03,
        Command::SoftwareVersion => 0x03,
        Command::Manufacturer => 0x03,
        Command::SinglePollingInstruction => 0x22,
        Command::MultiplePollingInstruction(_) => 0x27,
        Command::StopMultiplePollingInstruction => 0x28,
    }
}

/// The parameter bytes of a command; two-byte values go big-endian.
pub open spec fn params_of(c: Command) -> Seq<u8> {
    match c {
        Command::GetWorkingChannel => Seq::empty(),
        Command::GetWorkingArea => Seq::empty(),
        Command::AcquireTransmitPower => Seq::empty(),
        Command::SetTrasmissionPower(p) => seq![(p >> 8) as u8, (p & 0xFF) as u8],
        Command::HardwareVersion => seq![READ_WRITE_INFO_HARDWARE_VERSION],
        Command::SoftwareVersion => seq![READ_WRITE_INFO_SOFTWARE_VERSION],
        Command::Manufacturer => seq![READ_WRITE_INFO_MANUFACTURER],
        Command::SinglePollingInstruction => Seq::empty(),
        Command::MultiplePollingInstruction(m) => seq![(m >> 8) as u8, (m & 0xFF) as u8],
        Command::StopMultiplePollingInstruction => Seq::empty(),
    }
}

/// The command's decode from (opcode, first parameter byte): the inverse of
/// the encoding where one exists. The module-information opcode is refined
/// by its sub-code; the parameterless query opcodes ignore the second byte.
pub open spec fn decode_command(op: u8, sub: u8) -> Option<Command> {
    if op == INSTRUCTION_READER_WRITER_MODULE_INFO {
        if sub == READ_WRITE_INFO_HARDWARE_VERSION {
            Some(Command::HardwareVersion)
        } else if sub == READ_WRITE_INFO_SOFTWARE_VERSION {
            Some(Command::SoftwareVersion)
        } else if sub == READ_WRITE_INFO_MANUFACTURER {
            Some(Command::Manufacturer)
        } else {
            None
        }
    } else if op == 0xAA {
        Some(Command::GetWorkingChannel)
    } else if op == 0x08 {
        Some(Command::GetWorkingArea)
    } else if op == 0xB7 {
        Some(Command::AcquireTransmitPower)
    } else {
        None
    }
}

/// The text of the decode failure: the offending code in decimal, the
/// sub-code where the module-information opcode matched, the opcode else.
pub open spec fn invalid_command_rep(op: u8, sub: u8) -> Seq<char> {
    ("Invalid command code: ")@ + dec_rep(
        if op == INSTRUCTION_READER_WRITER_MODULE_INFO {
            sub as nat
        } else {
            op as nat
        },
    )
}

/// The command rendered as text, as a maintainer would log it.
pub open spec fn command_text_rep(c: Command) -> Seq<char> {
    match c {
        Command::HardwareVersion => ("Hardware Version")@,
        Command::SoftwareVersion => ("Software Version")@,
        Command::Manufacturer => ("Manufacturer")@,
        Command::GetWorkingChannel => ("Get Working Channel")@,
        Command::GetWorkingArea => ("Get Working Area")@,
        Command::AcquireTransmitPower => ("Acquire transmit power")@,
        Command::SetTrasmissionPower(p) => ("Set transmission power to ")@ + centi_rep(p),
        Command::SinglePollingInstruction => ("Single Polling Instruction")@,
        Command::MultiplePollingInstruction(m) => ("Multiple Polling Instruction [max: ")@
            + dec_rep(m as nat) + (" times]")@,
        Command::StopMultiplePollingInstruction => ("Stop Multiple Polling Instruction")@,
    }
}

impl Command {
    /// The (opcode, parameters) byte pair that encodes this command.
    pub fn to_bytes(&self) -> (r: (Vec<u8>, Vec<u8>))
        ensures
            r.0@ == seq![opcode_of(*self)],
            r.1@ == params_of(*self),
    {
        match self {
            Command::HardwareVersion => (
                vec![INSTRUCTION_READER_WRITER_MODULE_INFO],
                vec![READ_WRITE_INFO_HARDWARE_VERSION],
            ),
            Command::SoftwareVersion => (
                vec![INSTRUCTION_READER_WRITER_MODULE_INFO],
                vec![READ_WRITE_INFO_SOFTWARE_VERSION],
            ),
            Command::Manufacturer => (
                vec![INSTRUCTION_READER_WRITER_MODULE_INFO],
                vec![READ_WRITE_INFO_MANUFACTURER],
            ),
            Command::GetWorkingChannel => (vec![0xAA], vec![]),
            Command::GetWorkingArea => (vec![0x08], vec![]),
            Command::AcquireTransmitPower => (vec![0xB7], vec![]),
            Command::SetTrasmissionPower(p) => (vec![0xB6], vec![(*p >> 8) as u8, (*p & 0xFF) as u8]),
            Command::SinglePollingInstruction => (vec![0x22], vec![]),
            Command::MultiplePollingInstruction(m) => (
                vec![0x27],
                vec![(*m >> 8) as u8, (*m & 0xFF) as u8],
            ),
            Command::StopMultiplePollingInstruction => (vec![0x28], vec![]),
        }
    }

    /// The command decoded from an (opcode, parameters) byte pair, each with
    /// at least one byte; only the first byte of each is consulted.
    pub fn from_tuple(tuple: (Vec<u8>, Vec<u8>)) -> (r: Result<Command, FrameError>)
        requires
            tuple.0@.len() >= 1,
            tuple.1@.len() >= 1,
        ensures
            (r matches Ok(c) ==> decode_command(tuple.0@[0], tuple.1@[0]) == Some(c)),
            (r matches Err(FrameError::InvalidCommand(m)) ==> decode_command(
                tuple.0@[0],
                tuple.1@[0],
            ) is None && m@ == invalid_command_rep(tuple.0@[0], tuple.1@[0])),
    {
        let op = tuple.0[0];
        let sub = tuple.1[0];
        if op == INSTRUCTION_READER_WRITER_MODULE_INFO {
            if sub == READ_WRITE_INFO_HARDWARE_VERSION {
                Ok(Command::HardwareVersion)
            } else if sub == READ_WRITE_INFO_SOFTWARE_VERSION {
                Ok(Command::SoftwareVersion)
            } else if sub == READ_WRITE_INFO_MANUFACTURER {
                Ok(Command::Manufacturer)
            } else {
                let mut m = String::from_str("Invalid command code: ");
                push_dec(&mut m, sub as u64);
                Err(FrameError::InvalidCommand(m))
            }
        } else if op == 0xAA {
            Ok(Command::GetWorkingChannel)
        } else if op == 0x08 {
            Ok(Command::GetWorkingArea)
        } else if op == 0xB7 {
            Ok(Command::AcquireTransmitPower)
        } else {
            let mut m = String::from_str("Invalid command code: ");
            push_dec(&mut m, op as u64);
            Err(FrameError::InvalidCommand(m))
        }
    }

    /// The command rendered as text, as a maintainer would log it.
    pub fn describe(&self) -> (r: String)
        ensures
            r@ == command_text_rep(*self),
    {
        match self {
            Command::HardwareVersion => String::from_str("Hardware Version"),
            Command::SoftwareVersion => String::from_str("Software Version"),
            Command::Manufacturer => String::from_str("Manufacturer"),
            Command::GetWorkingChannel => String::from_str("Get Working Channel"),
            Command::GetWorkingArea => String::from_str("Get Working Area"),
            Command::AcquireTransmitPower => String::from_str("Acquire transmit power"),
            Command::SetTrasmissionPower(p) => {
                let mut s = String::from_str("Set transmission power to ");
                crate::text::push_centi(&mut s, *p);
                proof {
                    assert(s@ =~= command_text_rep(*self));
                }
                s
            },
            Command::SinglePollingInstruction => String::from_str("Single Polling Instruction"),
            Command::MultiplePollingInstruction(m) => {
                let mut s = String::from_str("Multiple Polling Instruction [max: ");
                push_dec(&mut s, *m as u64);
                s.append(" times]");
                proof {
                    assert(s@ =~= command_text_rep(*self));
                }
                s
            },
            Command::StopMultiplePollingInstruction => String::from_str(
                "Stop Multiple Polling Instruction",
            ),
        }
    }
}

/// The frame body: opcode, big-endian two-byte parameter length, parameters.
pub open spec fn frame_body_rep(c: Command) -> Seq<u8> {
    seq![
        opcode_of(c),
        ((params_of(c).len() / 256) % 256) as u8,
        (params_of(c).len() % 256) as u8,
    ] + params_of(c)
}

/// The complete wire frame that carries a command.
pub open spec fn frame_rep(c: Command) -> Seq<u8> {
    seq![R200_FRAME_HEADER, FRAME_TYPE_SEND_COMMAND] + frame_body_rep(c) + seq![
        checksum_rep(frame_body_rep(c)),
        R200_FRAME_END,
    ]
}

/// Low byte of the sum of a byte sequence: the protocol's checksum.
pub open spec fn checksum_rep(s: Seq<u8>) -> u8
    decreases s.len(),
{
    if s.len() == 0 {
        0u8
    } else {
        ((checksum_rep(s.drop_last()) + s.last()) % 256) as u8
    }
}

/// The frame layout law: a built frame opens with the HEADER and the
/// request direction byte, closes with the END marker, and its last-but-one
/// byte is the checksum of everything from the opcode through the last
/// parameter byte (the frame bytes with the first two and last two removed).
pub proof fn lemma_frame_checksum(c: Command)
    ensures
        frame_rep(c).len() == frame_body_rep(c).len() + 4,
        frame_rep(c)[0] == R200_FRAME_HEADER,
        frame_rep(c)[1] == FRAME_TYPE_SEND_COMMAND,
        frame_rep(c).last() == R200_FRAME_END,
        frame_rep(c)[frame_rep(c).len() - 2] == checksum_rep(
            frame_rep(c).subrange(2, frame_rep(c).len() - 2),
        ),
{
    assert(frame_rep(c).subrange(2, frame_rep(c).len() - 2) =~= frame_body_rep(c));
}

/// An outbound frame under construction: the body bytes between the
/// direction byte and the checksum.
pub struct Frame {
    payload: Vec<u8>,
}

impl View for Frame {
    type V = Seq<u8>;

    closed spec fn view(&self) -> Seq<u8> {
        self.payload@
    }
}

impl Frame {
    /// Builds the frame body for a command: opcode, big-endian parameter
    /// length, parameter bytes.
    pub fn new(payload: &Command) -> (f: Frame)
        ensures
            f@ == frame_body_rep(*payload),
    {
        let (mut v, mut params) = payload.to_bytes();
        let payload_size = params.len() as u16;
        assert(params@.len() <= 2);
        v.push((payload_size >> 8) as u8);
        v.push((payload_size & 0xFF) as u8);
        proof {
            let n = params_of(*payload).len() as u16;
            assert(n <= 2 ==> (n >> 8) == 0 && (n & 0xFF) == n) by (bit_vector);
        }
        v.append(&mut params);
        proof {
            assert(v@ =~= frame_body_rep(*payload));
        }
        Frame { payload: v }
    }

    /// Wraps the body into the complete wire frame:
    /// HEADER, direction, body, checksum over the body, END.
    pub fn to_bytes(&self) -> (r: Vec<u8>)
        ensures
            r@ == seq![R200_FRAME_HEADER, FRAME_TYPE_SEND_COMMAND] + self@ + seq![
                checksum_rep(self@),
                R200_FRAME_END,
            ],
    {
        let mut v: Vec<u8> = Vec::new();
        v.push(R200_FRAME_HEADER);
        v.push(FRAME_TYPE_SEND_COMMAND);
        let n = self.payload.len();
        let mut i: usize = 0;
        while i < n
            invariant
                n == self.payload@.len(),
                i <= n,
                v@ == seq![R200_FRAME_HEADER, FRAME_TYPE_SEND_COMMAND] + self.payload@.take(
                    i as int,
                ),
            decreases n - i,
        {
            v.push(self.payload[i]);
            proof {
                assert(self.payload@.take(i + 1) =~= self.payload@.take(i as int) + seq![
                    self.payload@[i as int],
                ]);
                assert(v@ =~= seq![R200_FRAME_HEADER, FRAME_TYPE_SEND_COMMAND]
                    + self.payload@.take(i + 1));
            }
            i = i + 1;
        }
        proof {
            assert(self.payload@.take(n as int) =~= self.payload@);
        }
        let cs = self.checksum(self.payload.as_slice());
        v.push(cs);
        v.push(R200_FRAME_END);
        proof {
            assert(v@ =~= seq![R200_FRAME_HEADER, FRAME_TYPE_SEND_COMMAND] + self@ + seq![
                checksum_rep(self@),
                R200_FRAME_END,
            ]);
        }
        v
    }

    /// Computes the checksum of a byte slice: the low byte of the byte sum.
    pub fn checksum(&self, bytes: &[u8]) -> (r: u8)
        ensures
            r == checksum_rep(bytes@),
    {
        let mut sum: u8 = 0;
        let n = bytes.len();
        let mut i: usize = 0;
        while i < n
            invariant
                n == bytes@.len(),
                i <= n,
                sum == checksum_rep(bytes@.take(i as int)),
            decreases n - i,
        {
            proof {
                assert(bytes@.take(i + 1).drop_last() =~= bytes@.take(i as int));
                assert(bytes@.take(i + 1).last() == bytes@[i as int]);
            }
            let b = *vstd::slice::slice_index_get(bytes, i);
            sum = ((sum as u16 + b as u16) % 256) as u8;
            i = i + 1;
        }
        proof {
            assert(bytes@.take(n as int) =~= bytes@);
        }
        sum
    }
}

} // verus!
