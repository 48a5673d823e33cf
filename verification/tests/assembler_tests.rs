use r200::assembler::recover_frames;

// Builds a device-to-host frame with the given command code and data.
fn make_frame(cmd: u8, data: &[u8]) -> Vec<u8> {
    let mut v = Vec::new();
    v.push(0xAA);
    v.push(0x01);
    v.push(cmd);
    let len = data.len() as u16;
    v.push((len >> 8) as u8);
    v.push((len & 0xFF) as u8);
    v.extend_from_slice(data);
    let sum: u32 = v[2..].iter().map(|&b| b as u32).sum();
    v.push((sum & 0xFF) as u8);
    v.push(0xDD);
    v
}

#[test]
fn noise_without_header_is_discarded() {
    let (buf, packets, done) = recover_frames(vec![0x00, 0xFF, 0x13, 0x37], None);
    assert!(buf.is_empty());
    assert!(packets.is_empty());
    assert!(!done);
}

#[test]
fn header_without_end_waits_for_more() {
    let noise = vec![0x13, 0xAA, 0x01, 0x02];
    let (buf, packets, done) = recover_frames(noise.clone(), None);
    assert_eq!(buf, noise);
    assert!(packets.is_empty());
    assert!(!done);
}

#[test]
fn leading_noise_then_frame_recovers_the_frame() {
    let mut stream = vec![0x00, 0xFF, 0x13, 0x37];
    stream.extend_from_slice(&make_frame(0x08, &[2]));
    let (buf, packets, done) = recover_frames(stream, None);
    assert!(buf.is_empty());
    assert_eq!(packets.len(), 1);
    assert!(packets[0].is_valid());
    assert_eq!(packets[0].get_data(), vec![2]);
    assert!(!done);
}

#[test]
fn two_frames_in_one_pass_in_arrival_order() {
    let f1 = make_frame(0x08, &[2]);
    let f2 = make_frame(0xAA, &[7]);
    let mut stream = f1;
    stream.extend_from_slice(&f2);
    let (buf, packets, done) = recover_frames(stream, None);
    assert!(buf.is_empty());
    assert_eq!(packets.len(), 2);
    assert!(packets[0].is_valid());
    assert!(packets[1].is_valid());
    assert_eq!(packets[0].get_data(), vec![2]);
    assert_eq!(packets[1].get_data(), vec![7]);
    assert!(!done);
}

#[test]
fn bounded_pass_stops_at_the_room() {
    let f1 = make_frame(0x08, &[2]);
    let f2 = make_frame(0xAA, &[7]);
    let mut stream = f1;
    stream.extend_from_slice(&f2);
    let (_buf, packets, done) = recover_frames(stream, Some(1));
    assert_eq!(packets.len(), 1);
    assert_eq!(packets[0].get_data(), vec![2]);
    assert!(done);
}

#[test]
fn empty_payload_frames_are_dropped() {
    let f = make_frame(0x08, &[]);
    let (buf, packets, done) = recover_frames(f, None);
    assert!(buf.is_empty());
    assert!(packets.is_empty());
    assert!(!done);
}

#[test]
fn truncated_chunk_is_consumed_without_delivery() {
    // Declares 5 payload bytes but the first END arrives after one.
    let chunk = vec![0xAA, 0x01, 0x22, 0x00, 0x05, 0x41, 0xDD];
    let (buf, packets, done) = recover_frames(chunk, None);
    assert!(buf.is_empty());
    assert!(packets.is_empty());
    assert!(!done);
}

#[test]
fn rolling_buffer_stays_under_the_high_water_mark() {
    let mut rolling: Vec<u8> = Vec::new();
    for _ in 0..60 {
        // A stray HEADER followed by filler that never brings an END.
        rolling.push(0xAA);
        rolling.extend_from_slice(&[0x55u8; 399]);
        let exceeded = rolling.len() > 8192;
        let (buf, packets, done) = recover_frames(rolling, None);
        assert!(buf.len() <= 8192);
        if exceeded {
            assert_eq!(buf.len(), 4096);
        }
        assert!(packets.is_empty());
        assert!(!done);
        rolling = buf;
    }
}
