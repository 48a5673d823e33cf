use r200::connector::{
    area_from_code, channel_khz, hexdump_line, interpret_ack, transmit_power_centi, Connector,
    ConnectorError, WorkingArea,
};
use r200::transport::{ReadOutcome, Transport};
use std::cell::RefCell;
use std::rc::Rc;

// A scripted transport: read outcomes are served in order, then timeouts;
// written frames are captured through a shared handle.
struct MockTransport {
    reads: Vec<ReadOutcome>,
    writes: Rc<RefCell<Vec<Vec<u8>>>>,
}

impl MockTransport {
    fn new(reads: Vec<ReadOutcome>) -> MockTransport {
        MockTransport {
            reads,
            writes: Rc::new(RefCell::new(Vec::new())),
        }
    }

    fn with_writes(reads: Vec<ReadOutcome>, writes: Rc<RefCell<Vec<Vec<u8>>>>) -> MockTransport {
        MockTransport { reads, writes }
    }
}

impl Transport for MockTransport {
    fn read_chunk(&mut self) -> ReadOutcome {
        if self.reads.is_empty() {
            ReadOutcome::TimedOut
        } else {
            self.reads.remove(0)
        }
    }

    fn write_all_bytes(&mut self, bytes: &[u8]) -> Result<(), String> {
        self.writes.borrow_mut().push(bytes.to_vec());
        Ok(())
    }

    fn flush_channel(&mut self) -> Result<(), String> {
        Ok(())
    }
}

// Builds a device-to-host frame with the given command code and data.
fn device_frame(cmd: u8, data: &[u8]) -> Vec<u8> {
    let mut v = Vec::new();
    v.push(0xAA);
    v.push(0x01);
    v.push(cmd);
    let len = data.len() as u16;
    v.push((len >> 8) as u8);
    v.push((len & 0xFF) as u8);
    v.extend_from_slice(data);
    let sum: u32 = v[2..].iter().map(|&b| b as u32).sum();
    v.push((sum & 0xFF) as u8);
    v.push(0xDD);
    v
}

#[test]
fn test_get_module_info() {
    let hw = ReadOutcome::Data(device_frame(0x03, b"HW1.0"));
    let sw = ReadOutcome::Data(device_frame(0x03, b"SW2.0"));
    let mf = ReadOutcome::Data(device_frame(0x03, b"ACME"));
    let mock = MockTransport::new(vec![hw, sw, mf]);
    let mut connector = Connector::new(mock);

    let info = connector.get_module_info().unwrap();
    assert!(info.contains("Hardware: HW1.0"));
    assert!(info.contains("Software: SW2.0"));
    assert!(info.contains("Manufacturer: ACME"));
}

#[test]
fn module_info_without_a_sub_response_fails() {
    let hw = ReadOutcome::Data(device_frame(0x03, b"HW1.0"));
    let mock = MockTransport::new(vec![hw, ReadOutcome::Closed]);
    let mut connector = Connector::new(mock);
    let err = connector.get_module_info().err().expect("expected error");
    assert!(matches!(err, ConnectorError::NoPacketReceived));
}

#[test]
fn test_get_working_area_mapping() {
    for (code, expected) in [
        (0, WorkingArea::China900Mhz),
        (1, WorkingArea::China800Mhz),
        (2, WorkingArea::US),
        (3, WorkingArea::EU),
        (4, WorkingArea::Korea),
    ] {
        let frame = ReadOutcome::Data(device_frame(0x08, &[code]));
        let mock = MockTransport::new(vec![frame]);
        let mut connector = Connector::new(mock);
        let area = connector.get_working_area().unwrap();
        // Compare by variant name via debug
        assert_eq!(format!("{:?}", area), format!("{:?}", expected));
    }
}

#[test]
fn invalid_area_code_is_rejected() {
    let frame = ReadOutcome::Data(device_frame(0x08, &[9]));
    let mock = MockTransport::new(vec![frame]);
    let mut connector = Connector::new(mock);
    let err = connector.get_working_area().err().expect("expected error");
    assert!(matches!(err, ConnectorError::InvalidWorkingArea));
}

#[test]
fn test_get_working_channel_uses_area() {
    // Channel index 4 -> depends on area. EU mapping: 0.2 MHz step + 865.1.
    // First response: channel index, second: area code 3 (EU).
    let chan = ReadOutcome::Data(device_frame(0xAA, &[4]));
    let area = ReadOutcome::Data(device_frame(0x08, &[3]));
    let mock = MockTransport::new(vec![chan, area]);
    let mut connector = Connector::new(mock);
    let freq_khz = connector.get_working_channel().unwrap();
    assert_eq!(freq_khz, 865900);
    let freq_mhz = freq_khz as f64 / 1000.0;
    assert!((freq_mhz - (4.0 * 0.2 + 865.1)).abs() < 1e-6);
}

#[test]
fn channel_maths_by_area() {
    assert_eq!(channel_khz(4, WorkingArea::EU), 865900);
    assert_eq!(channel_khz(0, WorkingArea::China900Mhz), 920125);
    assert_eq!(channel_khz(2, WorkingArea::China800Mhz), 840625);
    assert_eq!(channel_khz(1, WorkingArea::US), 902750);
    assert_eq!(channel_khz(3, WorkingArea::Korea), 917700);
}

#[test]
fn test_get_transmit_power() {
    // 27.50 -> 2750 -> bytes 0x0A 0xBE
    let frame = ReadOutcome::Data(device_frame(0xB7, &[0x0A, 0xBE]));
    let mock = MockTransport::new(vec![frame]);
    let mut connector = Connector::new(mock);
    let p = connector.get_transmit_power().unwrap();
    assert_eq!(p, 2750);
    assert!((p as f64 / 100.0 - 27.50).abs() < 1e-6);
}

#[test]
fn transmit_power_payload_too_short_is_a_parse_error() {
    let frame = ReadOutcome::Data(device_frame(0xB7, &[0x0A]));
    let mock = MockTransport::new(vec![frame]);
    let mut connector = Connector::new(mock);
    let err = connector.get_transmit_power().err().expect("expected error");
    assert!(matches!(err, ConnectorError::ParseError));
    assert!(matches!(
        transmit_power_centi(&vec![0x0A, 0xBE]),
        Ok(2750)
    ));
}

#[test]
fn test_set_transmission_power_ack() {
    // ACK byte 0x00; 30.00 dBm -> 3000 centi-units
    let frame = ReadOutcome::Data(device_frame(0xB6, &[0x00]));
    let writes = Rc::new(RefCell::new(Vec::new()));
    let mock = MockTransport::with_writes(vec![frame], writes.clone());
    let mut connector = Connector::new(mock);
    connector.set_trasmission_power(3000).unwrap();
    // 3000 = 0x0BB8; checksum 0xB6+0x00+0x02+0x0B+0xB8 = 0x17B -> 0x7B
    let sent = writes.borrow();
    assert_eq!(sent.len(), 1);
    assert_eq!(
        sent[0],
        vec![0xAA, 0x00, 0xB6, 0x00, 0x02, 0x0B, 0xB8, 0x7B, 0xDD]
    );
}

#[test]
fn ack_interpretation_is_exact() {
    assert!(matches!(interpret_ack(&vec![0x00]), Ok(())));
    assert!(matches!(interpret_ack(&vec![0x00, 0x07]), Ok(())));
    assert!(matches!(
        interpret_ack(&vec![0x01]),
        Err(ConnectorError::NoPacketReceived)
    ));
    assert!(matches!(
        interpret_ack(&vec![]),
        Err(ConnectorError::NoPacketReceived)
    ));
}

#[test]
fn missing_ack_byte_fails() {
    let frame = ReadOutcome::Data(device_frame(0xB6, &[0x01]));
    let mock = MockTransport::new(vec![frame]);
    let mut connector = Connector::new(mock);
    let err = connector
        .set_trasmission_power(3000)
        .err()
        .expect("expected error");
    assert!(matches!(err, ConnectorError::NoPacketReceived));
}

#[test]
fn test_single_polling_instruction_parses_tags() {
    // Build two tag frames then a timeout to end collection
    let tag1 = {
        let data = vec![
            55, // RSSI
            0x30, 0x12, // PC = 0x3012
            0xDE, 0xAD, 0xBE, 0xEF, 0x01, 0x02, 0x03, 0x04, 0x05, // EPC bytes 3..12
            0x00, 0x00, 0x00, // EPC bytes 12..15
            0xAB, 0xCD, // CRC bytes at 15,16
        ];
        ReadOutcome::Data(device_frame(0x22, &data))
    };
    let tag2 = {
        let data = vec![
            60, 0x20, 0x34, 0x11, 0x22, 0x33, 0x44, 0x55, 0x66, 0x77, 0x88, 0x99, 0x00, 0x00,
            0x00, 0x12, 0x34,
        ];
        ReadOutcome::Data(device_frame(0x22, &data))
    };
    let timeout = ReadOutcome::TimedOut;
    let mock = MockTransport::new(vec![tag1, tag2, timeout]);
    let mut connector = Connector::new(mock);
    let tags = connector.single_polling_instruction().unwrap();
    assert_eq!(tags.len(), 2);
    assert_eq!(tags[0].rssi, 55);
    assert_eq!(tags[0].pc, "3012");
    assert_eq!(tags[0].uid(), "DEADBEEF0102030405000000");
    assert_eq!(tags[0].crc, "ABCD");
    assert_eq!(tags[1].rssi, 60);
    assert_eq!(tags[1].uid(), "112233445566778899000000");
}

#[test]
fn single_poll_no_tag_sentinel_gives_empty_list() {
    let frame = ReadOutcome::Data(device_frame(0x22, &[0x15]));
    let mock = MockTransport::new(vec![frame, ReadOutcome::TimedOut]);
    let mut connector = Connector::new(mock);
    let tags = connector.single_polling_instruction().unwrap();
    assert!(tags.is_empty());
}

#[test]
fn short_tag_payload_is_a_parse_error() {
    let frame = ReadOutcome::Data(device_frame(0x22, &[1, 2, 3]));
    let mock = MockTransport::new(vec![frame, ReadOutcome::TimedOut]);
    let mut connector = Connector::new(mock);
    let err = connector
        .single_polling_instruction()
        .err()
        .expect("expected error");
    assert!(matches!(err, ConnectorError::ParseError));
}

#[test]
fn multi_polling_collects_until_timeout() {
    let data = vec![
        55, 0x30, 0x12, 0xDE, 0xAD, 0xBE, 0xEF, 0x01, 0x02, 0x03, 0x04, 0x05, 0x00, 0x00, 0x00,
        0xAB, 0xCD,
    ];
    let tag = ReadOutcome::Data(device_frame(0x27, &data));
    let mock = MockTransport::new(vec![tag, ReadOutcome::TimedOut]);
    let mut connector = Connector::new(mock);
    let tags = connector.multi_polling_instruction(10000).unwrap();
    assert_eq!(tags.len(), 1);
    assert_eq!(tags[0].uid(), "DEADBEEF0102030405000000");
}

#[test]
fn stop_polling_is_fire_and_forget() {
    let writes = Rc::new(RefCell::new(Vec::new()));
    let mock = MockTransport::with_writes(vec![], writes.clone());
    let mut connector = Connector::new(mock);
    connector.stop_multiple_polling_instructions().unwrap();
    let sent = writes.borrow();
    assert_eq!(sent.len(), 1);
    assert_eq!(sent[0], vec![0xAA, 0x00, 0x28, 0x00, 0x00, 0x28, 0xDD]);
}

#[test]
fn test_read_from_serial_noise_and_multiple_frames() {
    // Noise bytes, then two frames in separate reads, then timeout to finish
    let noise = vec![0x00, 0xFF, 0x13, 0x37];
    let f1 = ReadOutcome::Data(device_frame(0x08, &[2]));
    let f2 = ReadOutcome::Data(device_frame(0xAA, &[7]));
    let mock = MockTransport::new(vec![
        ReadOutcome::Data(noise),
        f1,
        f2,
        ReadOutcome::TimedOut,
    ]);
    let mut connector = Connector::new(mock);
    let out = connector.read_from_serial(None).unwrap().unwrap();
    assert_eq!(out.len(), 2);
    assert_eq!(out[0].get_data(), vec![2]);
    assert_eq!(out[1].get_data(), vec![7]);
}

#[test]
fn two_frames_in_a_single_read_arrive_in_order() {
    let mut burst = device_frame(0x08, &[2]);
    burst.extend_from_slice(&device_frame(0xAA, &[7]));
    let mock = MockTransport::new(vec![ReadOutcome::Data(burst), ReadOutcome::TimedOut]);
    let mut connector = Connector::new(mock);
    let out = connector.read_from_serial(None).unwrap().unwrap();
    assert_eq!(out.len(), 2);
    assert!(out[0].is_valid());
    assert!(out[1].is_valid());
    assert_eq!(out[0].get_data(), vec![2]);
    assert_eq!(out[1].get_data(), vec![7]);
}

#[test]
fn timeout_with_nothing_collected_fails() {
    let mock = MockTransport::new(vec![ReadOutcome::TimedOut]);
    let mut connector = Connector::new(mock);
    let err = connector
        .read_from_serial(Some(1))
        .err()
        .expect("expected error");
    assert!(matches!(err, ConnectorError::Timeout));
}

#[test]
fn timeout_after_frames_returns_the_burst_unharmed() {
    let f1 = ReadOutcome::Data(device_frame(0x08, &[2]));
    let mock = MockTransport::new(vec![f1, ReadOutcome::TimedOut]);
    let mut connector = Connector::new(mock);
    let out = connector.read_from_serial(None).unwrap().unwrap();
    assert_eq!(out.len(), 1);
    assert_eq!(out[0].get_data(), vec![2]);
}

#[test]
fn closed_stream_reports_no_data() {
    let mock = MockTransport::new(vec![ReadOutcome::Closed]);
    let mut connector = Connector::new(mock);
    let out = connector.read_from_serial(Some(1)).unwrap();
    assert!(out.is_none());
}

#[test]
fn transport_failure_is_a_serial_read_error() {
    let mock = MockTransport::new(vec![ReadOutcome::Failed("wire cut".to_string())]);
    let mut connector = Connector::new(mock);
    let err = connector
        .read_from_serial(Some(1))
        .err()
        .expect("expected error");
    match err {
        ConnectorError::SerialRead(msg) => assert_eq!(msg, "wire cut"),
        other => panic!("unexpected error: {:?}", other),
    }
}

#[test]
fn empty_payload_frames_never_count_as_responses() {
    // A frame with declared length zero is dropped, so nothing is collected
    // and the following timeout fails the read.
    let empty = ReadOutcome::Data(device_frame(0x08, &[]));
    let mock = MockTransport::new(vec![empty, ReadOutcome::TimedOut]);
    let mut connector = Connector::new(mock);
    let err = connector
        .read_from_serial(Some(1))
        .err()
        .expect("expected error");
    assert!(matches!(err, ConnectorError::Timeout));
}

#[test]
fn area_code_table_is_total_up_to_four() {
    assert!(matches!(area_from_code(0), Ok(WorkingArea::China900Mhz)));
    assert!(matches!(area_from_code(4), Ok(WorkingArea::Korea)));
    assert!(matches!(
        area_from_code(5),
        Err(ConnectorError::InvalidWorkingArea)
    ));
}

#[test]
fn hexdump_line_renders_spaced_pairs() {
    assert_eq!(hexdump_line("[RAW] ", &[0xAA, 0x01, 0xDD]), "[RAW] AA 01 DD ");
    assert_eq!(hexdump_line("x", &[]), "x");
}

#[test]
fn connector_errors_describe_themselves() {
    assert_eq!(ConnectorError::Timeout.describe(), "Timeout");
    assert_eq!(
        ConnectorError::SerialRead("boom".to_string()).describe(),
        "Serial read error: boom"
    );
    assert_eq!(
        ConnectorError::Io("pipe".to_string()).describe(),
        "IO error: pipe"
    );
    assert_eq!(
        ConnectorError::InvalidWorkingArea.describe(),
        "Invalid working area"
    );
    assert_eq!(
        ConnectorError::NoPacketReceived.describe(),
        "No packet received"
    );
    assert_eq!(ConnectorError::ParseError.describe(), "Parse error");
}
