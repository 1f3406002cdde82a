use system_bridge::reader::{TcpReader, UdpReceiver, TCP_READ_CHUNK, UDP_DATAGRAM_MAX};

fn event(op: u8, payload: &[u8]) -> Vec<u8> {
    let mut f = vec![1, op, 0, 0, 0, 0, 0, 0];
    f.extend_from_slice(payload);
    f
}

#[test]
fn buffer_sizes() {
    assert_eq!(TCP_READ_CHUNK, 8192);
    assert_eq!(UDP_DATAGRAM_MAX, 65535);
}

#[test]
fn recv_frames_carry_exactly_the_bytes_read() {
    let mut reader = TcpReader::new(7);
    let chunks: Vec<&[u8]> = vec![b"ab", b"cde", b"f"];
    let mut emitted = Vec::new();
    let mut read = Vec::new();
    for chunk in &chunks {
        let frame = reader.on_read(chunk).unwrap();
        assert_eq!(&frame[..8], &[1, 0x13, 0, 0, 0, 0, 0, 0]);
        assert_eq!(&frame[8..12], &[7, 0, 0, 0]);
        emitted.extend_from_slice(&frame[12..]);
        read.extend_from_slice(chunk);
    }
    assert_eq!(emitted, read);
    assert_eq!(emitted.len(), 6);
    assert!(reader.open());
}

#[test]
fn a_full_read_makes_one_frame_of_8_kib_of_data() {
    let mut reader = TcpReader::new(1);
    let data = vec![0xABu8; TCP_READ_CHUNK];
    let frame = reader.on_read(&data).unwrap();
    assert_eq!(frame.len(), 12 + 8192);
    assert_eq!(&frame[..12], &[1, 0x13, 0, 0, 0, 0, 0, 0, 1, 0, 0, 0]);
    assert_eq!(&frame[12..], &data[..]);
}

#[test]
fn end_of_stream_closes_once_with_reason_zero() {
    let mut reader = TcpReader::new(7);
    assert_eq!(reader.on_read(&[]), Some(event(0x14, &[7, 0, 0, 0, 0, 0, 0, 0, 0])));
    assert!(!reader.open());
    assert_eq!(reader.on_read(&[]), None);
    assert_eq!(reader.on_read(b"late"), None);
    assert_eq!(reader.on_failure(), None);
}

#[test]
fn read_failure_closes_once_with_reason_one() {
    let mut reader = TcpReader::new(0x10000);
    assert_eq!(reader.on_failure(), Some(event(0x14, &[0, 0, 1, 0, 1, 0, 0, 0, 0])));
    assert!(!reader.open());
    assert_eq!(reader.on_failure(), None);
    assert_eq!(reader.on_read(&[]), None);
}

#[test]
fn udp_datagram_frame_layout() {
    let receiver = UdpReceiver::new(3);
    let frame = receiver.on_datagram(6881, "10.0.0.9", b"ping").unwrap();
    let mut payload = vec![3, 0, 0, 0, 0xE1, 0x1A, 8, 0];
    payload.extend_from_slice(b"10.0.0.9");
    payload.extend_from_slice(b"ping");
    assert_eq!(frame, event(0x23, &payload));
}

#[test]
fn udp_failure_closes_once() {
    let mut receiver = UdpReceiver::new(3);
    assert!(receiver.open());
    assert_eq!(receiver.on_failure(), Some(event(0x24, &[3, 0, 0, 0, 0, 0, 0, 0, 0])));
    assert!(!receiver.open());
    assert_eq!(receiver.on_failure(), None);
    assert_eq!(receiver.on_datagram(1, "10.0.0.9", b"x"), None);
}
