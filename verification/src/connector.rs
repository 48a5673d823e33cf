//! The protocol session: each operation encodes one command, writes its
//! frame to the transport, collects the expected response frames through
//! the assembler, and interprets their payloads into domain values.

use crate::assembler::{
    lemma_recover_buffer_bounded, lemma_recover_chunks_valid, lemma_recover_count, recover_frames,
    recover_rep, room_rep, ROLLING_HIGH_WATER,
};
use crate::frame::{Command, Frame};
use crate::packet::{packet_valid, payload_rep, Packet};
use crate::rfid::Rfid;
use crate::text::{hex_spaced_rep, push_hex_spaced};
use crate::transport::{ReadOutcome, Transport};
use vstd::prelude::*;
use vstd::string::StringExecFns;

verus! {

/// The regulatory working area configured on the reader.
#[derive(Clone, Copy, Debug, PartialEq, Eq, Structural)]
pub enum WorkingArea {
    China900Mhz,
    China800Mhz,
    US,
    EU,
    Korea,
}

/// Failure of a protocol operation.
#[derive(Debug)]
pub enum ConnectorError {
    /// The transport failed while writing, with the failure's detail text.
    Io(String),
    /// No response arrived within the configured window.
    Timeout,
    /// The device reported an area code outside the known range.
    InvalidWorkingArea,
    /// A required response never arrived, or an acknowledgement byte was
    /// not the expected value.
    NoPacketReceived,
    /// The transport failed while reading, distinct from a clean timeout.
    SerialRead(String),
    /// A payload was too short for the fields a decode step reads.
    ParseError,
}

/// The error rendered as text, as a maintainer would log it.
pub open spec fn connector_error_text_rep(e: ConnectorError) -> Seq<char> {
    match e {
        ConnectorError::Io(m) => ("IO error: ")@ + m@,
        ConnectorError::Timeout => ("Timeout")@,
        ConnectorError::InvalidWorkingArea => ("Invalid working area")@,
        ConnectorError::NoPacketReceived => ("No packet received")@,
        ConnectorError::SerialRead(m) => ("Serial read error: ")@ + m@,
        ConnectorError::ParseError => ("Parse error")@,
    }
}

impl ConnectorError {
    /// The error rendered as text, as a maintainer would log it.
    pub fn describe(&self) -> (r: String)
        ensures
            r@ == connector_error_text_rep(*self),
    {
        match self {
            ConnectorError::Io(m) => {
                let mut s = String::from_str("IO error: ");
                s.append(m.as_str());
                s
            },
            ConnectorError::Timeout => String::from_str("Timeout"),
            ConnectorError::InvalidWorkingArea => String::from_str("Invalid working area"),
            ConnectorError::NoPacketReceived => String::from_str("No packet received"),
            ConnectorError::SerialRead(m) => {
                let mut s = String::from_str("Serial read error: ");
                s.append(m.as_str());
                s
            },
            ConnectorError::ParseError => String::from_str("Parse error"),
        }
    }
}

/// The working area a device code denotes: codes 0 through 4, in the order
/// China 900 MHz, China 800 MHz, US, EU, Korea.
pub open spec fn area_of_code(code: u8) -> Option<WorkingArea> {
    if code == 0 {
        Some(WorkingArea::China900Mhz)
    } else if code == 1 {
        Some(WorkingArea::China800Mhz)
    } else if code == 2 {
        Some(WorkingArea::US)
    } else if code == 3 {
        Some(WorkingArea::EU)
    } else if code == 4 {
        Some(WorkingArea::Korea)
    } else {
        None
    }
}

/// The channel spacing of a working area, in kHz.
pub open spec fn channel_step_khz(area: WorkingArea) -> u32 {
    match area {
        WorkingArea::China900Mhz => 250,
        WorkingArea::China800Mhz => 250,
        WorkingArea::US => 500,
        WorkingArea::EU => 200,
        WorkingArea::Korea => 200,
    }
}

/// The base frequency of a working area's channel 0, in kHz.
pub open spec fn channel_base_khz(area: WorkingArea) -> u32 {
    match area {
        WorkingArea::China900Mhz => 920125,
        WorkingArea::China800Mhz => 840125,
        WorkingArea::US => 902250,
        WorkingArea::EU => 865100,
        WorkingArea::Korea => 917100,
    }
}

/// A big-endian byte pair as one 16-bit value.
pub open spec fn be16_rep(hi: u8, lo: u8) -> u16 {
    (hi * 256 + lo) as u16
}

/// A set-power acknowledgement: a payload whose first byte is zero.
pub open spec fn ack_ok(payload: Seq<u8>) -> bool {
    payload.len() >= 1 && payload[0] == 0
}

/// The inventory "no tag present" sentinel payload byte.
pub const NO_TAG_SENTINEL: u8 = 0x15;

/// Maps a device area code to its working area; codes above 4 are invalid.
pub fn area_from_code(code: u8) -> (r: Result<WorkingArea, ConnectorError>)
    ensures
        r matches Ok(a) ==> area_of_code(code) == Some(a),
        r matches Err(e) ==> area_of_code(code) is None && e is InvalidWorkingArea,
{
    match code {
        0 => Ok(WorkingArea::China900Mhz),
        1 => Ok(WorkingArea::China800Mhz),
        2 => Ok(WorkingArea::US),
        3 => Ok(WorkingArea::EU),
        4 => Ok(WorkingArea::Korea),
        _ => Err(ConnectorError::InvalidWorkingArea),
    }
}

/// The centre frequency of a channel in a working area, in kHz:
/// the channel index times the area's spacing, plus the area's base.
pub fn channel_khz(channel_index: u8, area: WorkingArea) -> (r: u32)
    ensures
        r == channel_index * channel_step_khz(area) + channel_base_khz(area),
{
    match area {
        WorkingArea::China900Mhz => (channel_index as u32) * 250 + 920125,
        WorkingArea::China800Mhz => (channel_index as u32) * 250 + 840125,
        WorkingArea::US => (channel_index as u32) * 500 + 902250,
        WorkingArea::EU => (channel_index as u32) * 200 + 865100,
        WorkingArea::Korea => (channel_index as u32) * 200 + 917100,
    }
}

/// Reads the transmit power from a power-query payload: the first two
/// bytes, big-endian, in centi-units (the physical value scaled by 100).
/// A payload shorter than two bytes is a parse defect.
pub fn transmit_power_centi(data: &Vec<u8>) -> (r: Result<u16, ConnectorError>)
    ensures
        data@.len() >= 2 ==> r == Ok::<u16, ConnectorError>(be16_rep(data@[0], data@[1])),
        data@.len() < 2 ==> (r matches Err(e) && e is ParseError),
{
    if data.len() < 2 {
        return Err(ConnectorError::ParseError);
    }
    Ok((data[0] as u16) * 16 * 16 + (data[1] as u16))
}

/// Interprets a set-power response: a payload that opens with a zero byte
/// acknowledges the setting, and anything else fails as `NoPacketReceived`.
pub fn interpret_ack(data: &Vec<u8>) -> (r: Result<(), ConnectorError>)
    ensures
        ack_ok(data@) ==> r is Ok,
        !ack_ok(data@) ==> (r matches Err(e) && e is NoPacketReceived),
{
    if data.len() >= 1 && data[0] == 0x00 {
        Ok(())
    } else {
        Err(ConnectorError::NoPacketReceived)
    }
}

/// Interprets an inventory burst. One response whose payload opens with
/// the "no tag" sentinel is an empty inventory; otherwise every payload is
/// one tag record, and a payload shorter than the 17 bytes a record reads
/// is a parse defect.
pub fn parse_tags(packets: &Vec<Packet>) -> (r: Result<Vec<Rfid>, ConnectorError>)
    requires
        forall|i: int|
            0 <= i < packets@.len() ==> packet_valid((#[trigger] packets@[i])@) && payload_rep(
                packets@[i]@,
            ).len() > 0,
    ensures
        ({
            if packets@.len() == 1 && payload_rep(packets@[0]@)[0] == NO_TAG_SENTINEL {
                r matches Ok(v) && v@.len() == 0
            } else if forall|i: int|
                0 <= i < packets@.len() ==> payload_rep((#[trigger] packets@[i])@).len() >= 17 {
                r matches Ok(v) && v@.len() == packets@.len() && (forall|i: int|
                    0 <= i < v@.len() ==> (#[trigger] v@[i]).wf() && v@[i].raw_bytes()
                        == payload_rep(packets@[i]@))
            } else {
                r matches Err(e) && e is ParseError
            }
        }),
{
    if packets.len() == 1 {
        let data0 = packets[0].get_data();
        if data0[0] == NO_TAG_SENTINEL {
            return Ok(Vec::new());
        }
    }
    let mut rfids: Vec<Rfid> = Vec::new();
    let n = packets.len();
    let mut i: usize = 0;
    while i < n
        invariant
            n == packets@.len(),
            i <= n,
            !(packets@.len() == 1 && payload_rep(packets@[0]@)[0] == NO_TAG_SENTINEL),
            forall|k: int|
                0 <= k < packets@.len() ==> packet_valid((#[trigger] packets@[k])@) && payload_rep(
                    packets@[k]@,
                ).len() > 0,
            rfids@.len() == i,
            forall|j: int|
                0 <= j < i ==> (#[trigger] rfids@[j]).wf() && rfids@[j].raw_bytes() == payload_rep(
                    packets@[j]@,
                ) && payload_rep(packets@[j]@).len() >= 17,
        decreases n - i,
    {
        let data = packets[i].get_data();
        if data.len() < 17 {
            proof {
                assert(payload_rep(packets@[i as int]@).len() < 17);
                assert(!(forall|k: int|
                    0 <= k < packets@.len() ==> payload_rep((#[trigger] packets@[k])@).len()
                        >= 17));
            }
            return Err(ConnectorError::ParseError);
        }
        let ghost data_snap = data@;
        let rec = Rfid::from_raw(data);
        let ghost rec_snap = rec;
        let ghost prev = rfids@;
        rfids.push(rec);
        proof {
            assert(rfids@ =~= prev.push(rec_snap));
            assert forall|j: int|
                0 <= j < i + 1 implies (#[trigger] rfids@[j]).wf() && rfids@[j].raw_bytes()
                == payload_rep(packets@[j]@) && payload_rep(packets@[j]@).len() >= 17 by {
                if j < i {
                    assert(rfids@[j] == prev[j]);
                } else {
                    assert(rfids@[j] == rec_snap);
                    assert(rec_snap.raw_bytes() == data_snap);
                }
            }
        }
        i = i + 1;
    }
    proof {
        assert forall|k: int|
            0 <= k < packets@.len() implies payload_rep((#[trigger] packets@[k])@).len() >= 17 by {
            assert(rfids@[k].wf());
        }
    }
    Ok(rfids)
}

/// The module identity line assembled from the three sub-responses.
pub fn compose_module_info(hardware: &String, software: &String, manufacturer: &String) -> (r:
    String)
    ensures
        r@ == ("Hardware: ")@ + hardware@ + (" - Software: ")@ + software@ + (
        " - Manufacturer: ")@ + manufacturer@,
{
    let mut s = String::from_str("Hardware: ");
    s.append(hardware.as_str());
    s.append(" - Software: ");
    s.append(software.as_str());
    s.append(" - Manufacturer: ");
    s.append(manufacturer.as_str());
    proof {
        assert(s@ =~= ("Hardware: ")@ + hardware@ + (" - Software: ")@ + software@ + (
        " - Manufacturer: ")@ + manufacturer@);
    }
    s
}

/// A prefixed line of spaced hex pairs, as the raw-byte diagnostics print
/// them.
pub fn hexdump_line(prefix: &str, data: &[u8]) -> (r: String)
    ensures
        r@ == prefix@ + hex_spaced_rep(data@),
{
    let mut s = String::from_str(prefix);
    push_hex_spaced(&mut s, data);
    proof {
        assert(s@ =~= prefix@ + hex_spaced_rep(data@));
    }
    s
}

/// A protocol session over one transport, which it owns exclusively.
/// Request/response correlation is ordinal: each operation completes its
/// round trips before the next begins.
pub struct Connector<T: Transport> {
    port: T,
}

impl<T: Transport> Connector<T> {
    /// Binds a session to an already configured transport.
    pub fn new(p0: T) -> Connector<T> {
        Connector { port: p0 }
    }

    /// Encodes one command into its frame, writes it, and flushes.
    fn send_packet(&mut self, command: Command) -> (r: Result<(), ConnectorError>)
        ensures
            r matches Err(e) ==> e is Io,
    {
        let frame = Frame::new(&command).to_bytes();
        match self.port.write_all_bytes(frame.as_slice()) {
            Ok(_) => {},
            Err(m) => {
                return Err(ConnectorError::Io(m));
            },
        }
        match self.port.flush_channel() {
            Ok(_) => Ok(()),
            Err(m) => Err(ConnectorError::Io(m)),
        }
    }

    /// Reads frames from the transport until the expected count is
    /// collected, a timeout ends the burst, or the stream closes or fails.
    ///
    /// `Ok(None)` reports an idle or closed stream. `Ok(Some(packets))`
    /// holds at least one well-formed packet with a non-empty payload, and
    /// no more than the expected count: either the count was reached, or a
    /// timeout ended a burst that had already collected something.
    /// `Timeout` reports a timeout that struck with nothing collected, and
    /// `SerialRead` a transport failure.
    pub fn read_from_serial(&mut self, num_expected_responses: Option<u32>) -> (r: Result<
        Option<Vec<Packet>>,
        ConnectorError,
    >)
        requires
            num_expected_responses matches Some(n) ==> n >= 1,
        ensures
            r matches Ok(Some(ps)) ==> ps@.len() >= 1 && (num_expected_responses matches Some(n)
                ==> ps@.len() <= n) && (forall|i: int|
                0 <= i < ps@.len() ==> packet_valid((#[trigger] ps@[i])@) && payload_rep(
                    ps@[i]@,
                ).len() > 0),
            r matches Err(e) ==> e is Timeout || e is SerialRead,
    {
        let mut rolling: Vec<u8> = Vec::new();
        let mut output: Vec<Packet> = Vec::new();
        // The read budget only supplies the loop's termination measure; no
        // session exhausts it in practice.
        let mut reads_left: u64 = u64::MAX;
        loop
            invariant
                rolling@.len() <= ROLLING_HIGH_WATER,
                num_expected_responses matches Some(n) ==> n >= 1 && output@.len() < n,
                forall|i: int|
                    0 <= i < output@.len() ==> packet_valid((#[trigger] output@[i])@)
                        && payload_rep(output@[i]@).len() > 0,
            ensures
                output@.len() >= 1,
                num_expected_responses matches Some(n) ==> output@.len() <= n,
                forall|i: int|
                    0 <= i < output@.len() ==> packet_valid((#[trigger] output@[i])@)
                        && payload_rep(output@[i]@).len() > 0,
            decreases reads_left,
        {
            if reads_left == 0 {
                // The exhausted budget is handled like a timeout: nothing
                // collected fails, a non-empty collection is a finished
                // burst.
                if output.len() == 0 {
                    return Err(ConnectorError::Timeout);
                }
                break;
            }
            reads_left = reads_left - 1;
            match self.port.read_chunk() {
                ReadOutcome::Data(mut data) => {
                    rolling.append(&mut data);
                    let room = match num_expected_responses {
                        Some(n) => Some(n - output.len() as u32),
                        None => None,
                    };
                    let ghost before = rolling@;
                    let res = recover_frames(rolling, room);
                    proof {
                        lemma_recover_buffer_bounded(before, room_rep(room));
                        lemma_recover_chunks_valid(before, room_rep(room));
                        lemma_recover_count(before, room_rep(room));
                    }
                    rolling = res.0;
                    let mut newly = res.1;
                    let done = res.2;
                    let ghost newly_snap = newly@;
                    let ghost out_snap = output@;
                    output.append(&mut newly);
                    proof {
                        assert forall|i: int|
                            0 <= i < output@.len() implies packet_valid((
                        #[trigger] output@[i])@) && payload_rep(output@[i]@).len() > 0 by {
                            if i >= out_snap.len() {
                                assert(output@[i] == newly_snap[i - out_snap.len()]);
                                assert(newly_snap[i - out_snap.len()]@ == recover_rep(
                                    before,
                                    room_rep(room),
                                ).1[i - out_snap.len()]);
                            }
                        }
                    }
                    if done {
                        return Ok(Some(output));
                    }
                },
                ReadOutcome::Closed => {
                    return Ok(None);
                },
                ReadOutcome::TimedOut => {
                    if output.len() == 0 {
                        return Err(ConnectorError::Timeout);
                    }
                    break;
                },
                ReadOutcome::Failed(m) => {
                    return Err(ConnectorError::SerialRead(m));
                },
            }
        }
        Ok(Some(output))
    }

    /// Reads one response frame: `read_from_serial` bounded to one packet.
    fn single_read_from_serial(&mut self) -> (r: Result<Option<Packet>, ConnectorError>)
        ensures
            r matches Ok(Some(p)) ==> packet_valid(p@) && payload_rep(p@).len() > 0,
            r matches Err(e) ==> e is Timeout || e is SerialRead,
    {
        match self.read_from_serial(Some(1)) {
            Ok(Some(mut ps)) => Ok(ps.pop()),
            Ok(None) => Ok(None),
            Err(e) => Err(e),
        }
    }

    /// Queries the hardware version, the software version and the
    /// manufacturer in three round trips and joins the three texts. A
    /// missing sub-response fails as `NoPacketReceived`.
    pub fn get_module_info(&mut self) -> (r: Result<String, ConnectorError>)
        ensures
            r matches Err(e) ==> (e is Io || e is Timeout || e is SerialRead
                || e is NoPacketReceived),
    {
        match self.send_packet(Command::HardwareVersion) {
            Ok(_) => {},
            Err(e) => {
                return Err(e);
            },
        }
        let hardware = match self.single_read_from_serial() {
            Ok(Some(p)) => p,
            Ok(None) => {
                return Err(ConnectorError::NoPacketReceived);
            },
            Err(e) => {
                return Err(e);
            },
        };
        match self.send_packet(Command::SoftwareVersion) {
            Ok(_) => {},
            Err(e) => {
                return Err(e);
            },
        }
        let software = match self.single_read_from_serial() {
            Ok(Some(p)) => p,
            Ok(None) => {
                return Err(ConnectorError::NoPacketReceived);
            },
            Err(e) => {
                return Err(e);
            },
        };
        match self.send_packet(Command::Manufacturer) {
            Ok(_) => {},
            Err(e) => {
                return Err(e);
            },
        }
        let manufacture = match self.single_read_from_serial() {
            Ok(Some(p)) => p,
            Ok(None) => {
                return Err(ConnectorError::NoPacketReceived);
            },
            Err(e) => {
                return Err(e);
            },
        };
        let hardware_text = hardware.text();
        let software_text = software.text();
        let manufacture_text = manufacture.text();
        Ok(compose_module_info(&hardware_text, &software_text, &manufacture_text))
    }

    /// Queries the regulatory working area. A response byte outside the
    /// code table fails as `InvalidWorkingArea`; a missing response as
    /// `NoPacketReceived`.
    pub fn get_working_area(&mut self) -> (r: Result<WorkingArea, ConnectorError>)
        ensures
            r matches Err(e) ==> (e is Io || e is Timeout || e is SerialRead
                || e is NoPacketReceived || e is InvalidWorkingArea),
    {
        match self.send_packet(Command::GetWorkingArea) {
            Ok(_) => {},
            Err(e) => {
                return Err(e);
            },
        }
        match self.single_read_from_serial() {
            Ok(Some(p)) => {
                let data = p.get_data();
                area_from_code(data[0])
            },
            Ok(None) => Err(ConnectorError::NoPacketReceived),
            Err(e) => Err(e),
        }
    }

    /// Queries the working channel and converts its index to a centre
    /// frequency in kHz, using the spacing and base of the working area
    /// that a second round trip reports.
    pub fn get_working_channel(&mut self) -> (r: Result<u32, ConnectorError>)
        ensures
            r matches Err(e) ==> (e is Io || e is Timeout || e is SerialRead
                || e is NoPacketReceived || e is InvalidWorkingArea),
    {
        match self.send_packet(Command::GetWorkingChannel) {
            Ok(_) => {},
            Err(e) => {
                return Err(e);
            },
        }
        match self.single_read_from_serial() {
            Ok(Some(p)) => {
                let area = match self.get_working_area() {
                    Ok(a) => a,
                    Err(e) => {
                        return Err(e);
                    },
                };
                let data = p.get_data();
                Ok(channel_khz(data[0], area))
            },
            Ok(None) => Err(ConnectorError::NoPacketReceived),
            Err(e) => Err(e),
        }
    }

    /// Queries the transmit power, in centi-units (the physical value
    /// scaled by 100).
    pub fn get_transmit_power(&mut self) -> (r: Result<u16, ConnectorError>)
        ensures
            r matches Err(e) ==> (e is Io || e is Timeout || e is SerialRead
                || e is NoPacketReceived || e is ParseError),
    {
        match self.send_packet(Command::AcquireTransmitPower) {
            Ok(_) => {},
            Err(e) => {
                return Err(e);
            },
        }
        match self.single_read_from_serial() {
            Ok(Some(p)) => {
                let data = p.get_data();
                transmit_power_centi(&data)
            },
            Ok(None) => Err(ConnectorError::NoPacketReceived),
            Err(e) => Err(e),
        }
    }

    /// Sets the transmit power, given in centi-units (the physical value
    /// scaled by 100). The response payload is judged by `interpret_ack`:
    /// anything but a zero acknowledgement byte fails as
    /// `NoPacketReceived`, as does an absent response.
    pub fn set_trasmission_power(&mut self, power: u16) -> (r: Result<(), ConnectorError>)
        ensures
            r matches Err(e) ==> (e is Io || e is Timeout || e is SerialRead
                || e is NoPacketReceived),
    {
        match self.send_packet(Command::SetTrasmissionPower(power)) {
            Ok(_) => {},
            Err(e) => {
                return Err(e);
            },
        }
        match self.single_read_from_serial() {
            Ok(Some(p)) => {
                let data = p.get_data();
                interpret_ack(&data)
            },
            Ok(None) => Err(ConnectorError::NoPacketReceived),
            Err(e) => Err(e),
        }
    }

    /// Performs one inventory poll and returns the detected tag records,
    /// parsed by `parse_tags`. The burst ends at the transport's timeout.
    pub fn single_polling_instruction(&mut self) -> (r: Result<Vec<Rfid>, ConnectorError>)
        ensures
            r matches Ok(v) ==> forall|i: int| 0 <= i < v@.len() ==> (#[trigger] v@[i]).wf(),
            r matches Err(e) ==> (e is Io || e is Timeout || e is SerialRead
                || e is NoPacketReceived || e is ParseError),
    {
        match self.send_packet(Command::SinglePollingInstruction) {
            Ok(_) => {},
            Err(e) => {
                return Err(e);
            },
        }
        match self.read_from_serial(None) {
            Ok(Some(ps)) => parse_tags(&ps),
            Ok(None) => Err(ConnectorError::NoPacketReceived),
            Err(e) => Err(e),
        }
    }

    /// Starts a continuous inventory of up to `max_count` polls and
    /// collects tag records until the transport's timeout ends the burst.
    /// Duplicate EPCs across the burst are expected; deduplication is the
    /// caller's, by the records' EPC identity.
    pub fn multi_polling_instruction(&mut self, max_count: u16) -> (r: Result<
        Vec<Rfid>,
        ConnectorError,
    >)
        ensures
            r matches Ok(v) ==> forall|i: int| 0 <= i < v@.len() ==> (#[trigger] v@[i]).wf(),
            r matches Err(e) ==> (e is Io || e is Timeout || e is SerialRead
                || e is NoPacketReceived || e is ParseError),
    {
        match self.send_packet(Command::MultiplePollingInstruction(max_count)) {
            Ok(_) => {},
            Err(e) => {
                return Err(e);
            },
        }
        match self.read_from_serial(None) {
            Ok(Some(ps)) => parse_tags(&ps),
            Ok(None) => Err(ConnectorError::NoPacketReceived),
            Err(e) => Err(e),
        }
    }

    /// Cancels an in-flight continuous inventory, fire and forget: the
    /// stop command is written and no response is awaited.
    pub fn stop_multiple_polling_instructions(&mut self) -> (r: Result<(), ConnectorError>)
        ensures
            r matches Err(e) ==> e is Io,
    {
        self.send_packet(Command::StopMultiplePollingInstruction)
    }
}

} // verus!
