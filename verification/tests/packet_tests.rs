use r200::frame::Command;
use r200::packet::Packet;

// Helper to build a raw packet vector:
// [HEADER, TYPE, CMD, LEN_HI, LEN_LO, DATA..., CHECKSUM, END]
fn build_packet(frame_type: u8, cmd: u8, data: &[u8]) -> Vec<u8> {
    let len = data.len() as u16;
    let mut v = Vec::new();
    v.push(0xAA);
    v.push(frame_type);
    v.push(cmd);
    v.push((len >> 8) as u8);
    v.push((len & 0xFF) as u8);
    v.extend_from_slice(data);
    // checksum is sum of bytes from index 2 (cmd) to last data byte, low 8 bits
    let sum: u16 = v[2..].iter().map(|&b| b as u16).sum();
    v.push((sum & 0xFF) as u8);
    v.push(0xDD);
    v
}

#[test]
fn packet_parses_basic_fields() {
    let raw = build_packet(0x00, 0x03, &[0x00]); // module info, hardware version parameter
    let p = Packet::new(raw.clone());
    assert_eq!(p.frame_type(), 0x00);
    assert_eq!(p.command_code(), 0x03);
    assert_eq!(p.data_len(), 1);
    assert_eq!(p.get_data(), vec![0x00]);
    // debug string should contain hex codes and length
    let dbg = p.debug();
    assert!(dbg.contains("Tipo: 00"));
    assert!(dbg.contains("Comando: 03"));
    assert!(dbg.contains("Lunghezza: 1"));
}

#[test]
fn display_outputs_utf8_data() {
    let raw = build_packet(0x00, 0x22, b"OK");
    let p = Packet::new(raw);
    assert_eq!(p.text(), "OK");
}

#[test]
fn display_handles_invalid_utf8() {
    let raw = build_packet(0x00, 0x22, &[0xFF]);
    let p = Packet::new(raw);
    assert_eq!(p.text(), "Invalid UTF-8");
}

#[test]
fn text_decodes_multibyte_utf8() {
    let raw = build_packet(0x00, 0x22, "héllo".as_bytes());
    let p = Packet::new(raw);
    assert_eq!(p.text(), "héllo");
}

#[test]
fn command_mapping_module_info_variants() {
    // HardwareVersion (0x03, 0x00)
    let p_hw = Packet::new(build_packet(0x00, 0x03, &[0x00]));
    assert!(matches!(p_hw.command().unwrap(), Command::HardwareVersion));
    // SoftwareVersion (0x03, 0x01)
    let p_sw = Packet::new(build_packet(0x00, 0x03, &[0x01]));
    assert!(matches!(p_sw.command().unwrap(), Command::SoftwareVersion));
    // Manufacturer (0x03, 0x02)
    let p_mf = Packet::new(build_packet(0x00, 0x03, &[0x02]));
    assert!(matches!(p_mf.command().unwrap(), Command::Manufacturer));
}

#[test]
fn command_mapping_other_commands_with_no_data() {
    // GetWorkingChannel uses 0xAA with no data length
    let raw = build_packet(0x00, 0xAA, &[]);
    let p = Packet::new(raw);
    // The decode looks at raw_data[5] even when len=0, which is the checksum.
    // from_tuple ignores the second element for these commands, so this still works.
    assert!(matches!(p.command().unwrap(), Command::GetWorkingChannel));
}

#[test]
fn is_valid_checks_declared_length() {
    let good = Packet::new(build_packet(0x00, 0x03, &[0x11, 0x22]));
    assert!(good.is_valid());
    // declared length 2 but three data bytes present
    let mut raw = build_packet(0x00, 0x03, &[0x11, 0x22]);
    raw.insert(5, 0x33);
    let bad = Packet::new(raw);
    assert!(!bad.is_valid());
    // far too short for its header fields
    let stub = Packet::new(vec![0xAA, 0x00, 0x03]);
    assert!(!stub.is_valid());
}

#[test]
fn debug_renders_payload_list() {
    let p = Packet::new(build_packet(0x01, 0xB7, &[0x0A, 0xBE]));
    assert_eq!(
        p.debug(),
        "Tipo: 01, Comando: B7, Lunghezza: 2 - Dato: [10, 190]"
    );
}
