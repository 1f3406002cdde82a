use system_bridge::ipc::{frame_message, message_length, MAX_MESSAGE_LEN};

#[test]
fn test_read_write_message() {
    let mut map = serde_json::Map::new();
    map.insert("foo".to_string(), serde_json::Value::String("bar".to_string()));
    let msg = serde_json::Value::Object(map);
    let body = serde_json::to_vec(&msg).unwrap();

    let buf = frame_message(&body).unwrap();

    let prefix: [u8; 4] = [buf[0], buf[1], buf[2], buf[3]];
    let len = message_length(&prefix).unwrap();
    let read_bytes = &buf[4..4 + len];
    assert_eq!(buf.len(), 4 + len);
    let read_msg: serde_json::Value = serde_json::from_slice(read_bytes).unwrap();

    assert_eq!(msg, read_msg);
}

#[test]
fn length_prefix_is_little_endian() {
    assert_eq!(frame_message(b"abc"), Some(vec![3, 0, 0, 0, b'a', b'b', b'c']));
    assert_eq!(frame_message(&[]), Some(vec![0, 0, 0, 0]));
    assert_eq!(frame_message(&vec![7u8; 258]).unwrap()[..4], [2, 1, 0, 0]);
    assert_eq!(message_length(&[0x78, 0x56, 0x34, 0x00]), Ok(0x345678));
    assert_eq!(message_length(&[1, 0, 0, 0]), Ok(1));
}

#[test]
fn messages_over_ten_mib_are_refused() {
    assert_eq!(MAX_MESSAGE_LEN, 10 * 1024 * 1024);
    assert_eq!(message_length(&[0, 0, 0xA0, 0]), Ok(10 * 1024 * 1024));
    assert_eq!(
        message_length(&[1, 0, 0xA0, 0]),
        Err("Message too large: 10485761 bytes".to_string())
    );
    assert_eq!(
        message_length(&[0xFF, 0xFF, 0xFF, 0xFF]),
        Err("Message too large: 4294967295 bytes".to_string())
    );
}
