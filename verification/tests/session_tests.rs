use system_bridge::session::{Action, Session};

const TOKEN: &str = "secret-token";

fn frame(op: u8, request_id: u32, payload: &[u8]) -> Vec<u8> {
    let mut f = vec![1, op, 0, 0];
    f.extend_from_slice(&request_id.to_le_bytes());
    f.extend_from_slice(payload);
    f
}

fn auth_payload(auth_type: u8, data: &[u8]) -> Vec<u8> {
    let mut p = vec![auth_type];
    p.extend_from_slice(data);
    p
}

fn authed() -> Session {
    let mut s = Session::new();
    let actions = s.on_frame(&frame(0x03, 1, &auth_payload(1, TOKEN.as_bytes())), TOKEN);
    assert_eq!(actions, vec![Action::Send { frame: frame(0x04, 1, &[0]) }]);
    assert!(s.is_authenticated());
    s
}

fn connect_payload(id: u32, port: u16, host: &str) -> Vec<u8> {
    let mut p = id.to_le_bytes().to_vec();
    p.extend_from_slice(&port.to_le_bytes());
    p.extend_from_slice(host.as_bytes());
    p
}

#[test]
fn fresh_session_is_open_and_unauthenticated() {
    let s = Session::new();
    assert!(!s.is_authenticated());
    assert!(!s.is_closed());
    assert_eq!(s.sockets().next_socket_id(), 0x10000);
}

#[test]
fn hello_is_answered_and_does_not_authenticate() {
    let mut s = Session::new();
    let actions = s.on_frame(&frame(0x01, 9, &[]), TOKEN);
    assert_eq!(actions, vec![Action::Send { frame: frame(0x02, 9, &[]) }]);
    assert!(!s.is_authenticated());
    assert!(!s.is_closed());
}

#[test]
fn short_frames_are_dropped() {
    let mut s = Session::new();
    assert_eq!(s.on_frame(&[1, 2, 3, 4, 5, 6, 7], TOKEN), vec![]);
    assert_eq!(s.on_frame(&[], TOKEN), vec![]);
    assert!(!s.is_closed());
}

#[test]
fn wrong_version_ends_the_session() {
    let mut s = Session::new();
    let mut f = frame(0x01, 5, &[]);
    f[0] = 2;
    let actions = s.on_frame(&f, TOKEN);
    assert_eq!(
        actions,
        vec![
            Action::Send { frame: frame(0x7F, 5, b"Invalid protocol version") },
            Action::Terminate
        ]
    );
    assert!(s.is_closed());
}

#[test]
fn auth_type_one_takes_the_token_verbatim() {
    let s = authed();
    assert!(!s.is_closed());
}

#[test]
fn auth_type_zero_takes_the_token_before_the_first_nul() {
    let mut s = Session::new();
    let mut data = TOKEN.as_bytes().to_vec();
    data.push(0);
    data.extend_from_slice(b"extension-id");
    data.push(0);
    data.extend_from_slice(b"install-id");
    let actions = s.on_frame(&frame(0x03, 2, &auth_payload(0, &data)), TOKEN);
    assert_eq!(actions, vec![Action::Send { frame: frame(0x04, 2, &[0]) }]);
    assert!(s.is_authenticated());
}

#[test]
fn auth_type_zero_without_nul_takes_everything() {
    let mut s = Session::new();
    let actions = s.on_frame(&frame(0x03, 2, &auth_payload(0, TOKEN.as_bytes())), TOKEN);
    assert_eq!(actions, vec![Action::Send { frame: frame(0x04, 2, &[0]) }]);
}

#[test]
fn wrong_token_is_refused_and_ends_the_session() {
    let mut s = Session::new();
    let actions = s.on_frame(&frame(0x03, 3, &auth_payload(1, b"nope")), TOKEN);
    let mut payload = vec![1u8];
    payload.extend_from_slice(b"Invalid token");
    assert_eq!(
        actions,
        vec![Action::Send { frame: frame(0x04, 3, &payload) }, Action::Terminate]
    );
    assert!(s.is_closed());
    assert!(!s.is_authenticated());
}

#[test]
fn token_with_invalid_utf8_is_decoded_lossily() {
    let mut s = Session::new();
    let actions = s.on_frame(&frame(0x03, 3, &auth_payload(1, &[0xFF])), "\u{FFFD}");
    assert_eq!(actions, vec![Action::Send { frame: frame(0x04, 3, &[0]) }]);
    assert!(s.is_authenticated());
}

#[test]
fn empty_auth_payload_is_an_error() {
    let mut s = Session::new();
    let actions = s.on_frame(&frame(0x03, 4, &[]), TOKEN);
    assert_eq!(
        actions,
        vec![Action::Send { frame: frame(0x7F, 4, b"Empty auth payload") }, Action::Terminate]
    );
    assert!(s.is_closed());
}

#[test]
fn unknown_auth_type_is_an_error() {
    let mut s = Session::new();
    let actions = s.on_frame(&frame(0x03, 4, &auth_payload(7, TOKEN.as_bytes())), TOKEN);
    assert_eq!(
        actions,
        vec![Action::Send { frame: frame(0x7F, 4, b"Unknown auth type") }, Action::Terminate]
    );
}

#[test]
fn requests_before_auth_are_refused() {
    let mut s = Session::new();
    let actions = s.on_frame(&frame(0x10, 6, &connect_payload(1, 80, "example.org")), TOKEN);
    assert_eq!(
        actions,
        vec![
            Action::Send { frame: frame(0x7F, 6, b"Authentication required") },
            Action::Terminate
        ]
    );
    assert!(s.is_closed());
    assert!(!s.sockets().has_pending_connect(1));
}

#[test]
fn unknown_opcode_after_auth_ends_the_session() {
    let mut s = authed();
    let actions = s.on_frame(&frame(0x55, 8, &[]), TOKEN);
    assert_eq!(
        actions,
        vec![Action::Send { frame: frame(0x7F, 8, b"Unknown opcode") }, Action::Terminate]
    );
    assert!(s.is_closed());
}

#[test]
fn tcp_connect_registers_pending_and_starts_connect() {
    let mut s = authed();
    let actions = s.on_frame(&frame(0x10, 7, &connect_payload(0x2, 6881, "127.0.0.1")), TOKEN);
    assert_eq!(
        actions,
        vec![Action::Connect {
            socket_id: 2,
            request_id: 7,
            addr: "127.0.0.1:6881".to_string(),
            timeout_secs: 30,
        }]
    );
    assert!(s.sockets().has_pending_connect(2));
    assert!(!s.sockets().has_tcp_socket(2));
}

#[test]
fn tcp_connect_with_short_payload_is_ignored() {
    let mut s = authed();
    assert_eq!(s.on_frame(&frame(0x10, 7, &[1, 0, 0, 0, 80]), TOKEN), vec![]);
    assert!(!s.sockets().has_pending_connect(1));
    assert!(!s.is_closed());
}

#[test]
fn connect_success_moves_pending_to_established() {
    let mut s = authed();
    s.on_frame(&frame(0x10, 7, &connect_payload(2, 80, "h")), TOKEN);
    let actions = s.connect_result(7, 2, true);
    assert_eq!(
        actions,
        vec![
            Action::Send { frame: frame(0x11, 7, &[2, 0, 0, 0, 0, 0, 0, 0, 0]) },
            Action::StartTcpIo { socket_id: 2, write_queue: 32 }
        ]
    );
    assert!(!s.sockets().has_pending_connect(2));
    assert!(s.sockets().has_tcp_socket(2));
}

#[test]
fn connect_failure_reports_status_one_errno_one() {
    let mut s = authed();
    s.on_frame(&frame(0x10, 7, &connect_payload(2, 80, "h")), TOKEN);
    let actions = s.connect_result(7, 2, false);
    assert_eq!(
        actions,
        vec![Action::Send { frame: frame(0x11, 7, &[2, 0, 0, 0, 1, 1, 0, 0, 0]) }]
    );
    assert!(!s.sockets().has_pending_connect(2));
    assert!(!s.sockets().has_tcp_socket(2));
}

#[test]
fn cancelled_connect_emits_no_connected_frame() {
    let mut s = authed();
    let started =
        s.on_frame(&frame(0x10, 1, &connect_payload(0x5, 1, "10.255.255.1")), TOKEN);
    assert_eq!(
        started,
        vec![Action::Connect {
            socket_id: 5,
            request_id: 1,
            addr: "10.255.255.1:1".to_string(),
            timeout_secs: 30,
        }]
    );
    let closed = s.on_frame(&frame(0x14, 2, &5u32.to_le_bytes()), TOKEN);
    assert_eq!(closed, vec![Action::CancelConnect { socket_id: 5 }]);
    assert!(!s.sockets().has_pending_connect(5));
    assert_eq!(s.connect_result(1, 5, true), vec![]);
    assert_eq!(s.connect_result(1, 5, false), vec![]);
    assert!(!s.sockets().has_tcp_socket(5));
}

#[test]
fn tcp_send_to_known_socket_is_queued() {
    let mut s = authed();
    s.on_frame(&frame(0x10, 7, &connect_payload(2, 80, "h")), TOKEN);
    s.connect_result(7, 2, true);
    let mut payload = 2u32.to_le_bytes().to_vec();
    payload.extend_from_slice(b"hello");
    let actions = s.on_frame(&frame(0x12, 0, &payload), TOKEN);
    assert_eq!(actions, vec![Action::Write { socket_id: 2, data: b"hello".to_vec() }]);
}

#[test]
fn tcp_send_to_unknown_socket_is_a_silent_no_op() {
    let mut s = authed();
    let mut payload = 99u32.to_le_bytes().to_vec();
    payload.extend_from_slice(b"hello");
    assert_eq!(s.on_frame(&frame(0x12, 0, &payload), TOKEN), vec![]);
    assert!(!s.is_closed());
}

#[test]
fn tcp_close_drops_the_established_socket() {
    let mut s = authed();
    s.on_frame(&frame(0x10, 7, &connect_payload(2, 80, "h")), TOKEN);
    s.connect_result(7, 2, true);
    let actions = s.on_frame(&frame(0x14, 0, &2u32.to_le_bytes()), TOKEN);
    assert_eq!(actions, vec![Action::CloseTcp { socket_id: 2 }]);
    assert!(!s.sockets().has_tcp_socket(2));
    assert_eq!(s.on_frame(&frame(0x14, 0, &2u32.to_le_bytes()), TOKEN), vec![]);
}

#[test]
fn tcp_listen_with_empty_bind_address_uses_any() {
    let mut s = authed();
    let mut payload = 1u32.to_le_bytes().to_vec();
    payload.extend_from_slice(&0u16.to_le_bytes());
    let actions = s.on_frame(&frame(0x15, 3, &payload), TOKEN);
    assert_eq!(
        actions,
        vec![Action::Listen { server_id: 1, request_id: 3, addr: "0.0.0.0:0".to_string() }]
    );
    assert!(!s.sockets().has_tcp_server(1));
}

#[test]
fn tcp_listen_with_bind_address() {
    let mut s = authed();
    let mut payload = 1u32.to_le_bytes().to_vec();
    payload.extend_from_slice(&8080u16.to_le_bytes());
    payload.extend_from_slice(b"127.0.0.1");
    let actions = s.on_frame(&frame(0x15, 3, &payload), TOKEN);
    assert_eq!(
        actions,
        vec![Action::Listen { server_id: 1, request_id: 3, addr: "127.0.0.1:8080".to_string() }]
    );
}

#[test]
fn listen_failure_reports_status_one() {
    let mut s = authed();
    let actions = s.listen_result(3, 1, None);
    assert_eq!(
        actions,
        vec![Action::Send { frame: frame(0x16, 3, &[1, 0, 0, 0, 1, 0, 0, 1, 0, 0, 0]) }]
    );
    assert!(!s.sockets().has_tcp_server(1));
}

#[test]
fn loopback_echo() {
    let mut s = authed();
    let mut listen = 1u32.to_le_bytes().to_vec();
    listen.extend_from_slice(&0u16.to_le_bytes());
    listen.extend_from_slice(b"0.0.0.0");
    assert_eq!(
        s.on_frame(&frame(0x15, 10, &listen), TOKEN),
        vec![Action::Listen { server_id: 1, request_id: 10, addr: "0.0.0.0:0".to_string() }]
    );
    let port: u16 = 40123;
    let mut result = vec![1, 0, 0, 0, 0];
    result.extend_from_slice(&port.to_le_bytes());
    result.extend_from_slice(&[0, 0, 0, 0]);
    assert_eq!(
        s.listen_result(10, 1, Some(port)),
        vec![
            Action::Send { frame: frame(0x16, 10, &result) },
            Action::StartAccept { server_id: 1 }
        ]
    );
    assert_eq!(
        s.on_frame(&frame(0x10, 11, &connect_payload(0x2, port, "127.0.0.1")), TOKEN),
        vec![Action::Connect {
            socket_id: 2,
            request_id: 11,
            addr: "127.0.0.1:40123".to_string(),
            timeout_secs: 30,
        }]
    );
    assert_eq!(
        s.connect_result(11, 2, true),
        vec![
            Action::Send { frame: frame(0x11, 11, &[2, 0, 0, 0, 0, 0, 0, 0, 0]) },
            Action::StartTcpIo { socket_id: 2, write_queue: 32 }
        ]
    );
    let client_port: u16 = 51000;
    let mut accept = 1u32.to_le_bytes().to_vec();
    accept.extend_from_slice(&0x10000u32.to_le_bytes());
    accept.extend_from_slice(&client_port.to_le_bytes());
    accept.extend_from_slice(b"127.0.0.1");
    assert_eq!(
        s.accepted(1, client_port, "127.0.0.1"),
        vec![
            Action::Send { frame: frame(0x17, 0, &accept) },
            Action::StartTcpIo { socket_id: 0x10000, write_queue: 32 }
        ]
    );
    let mut send = 2u32.to_le_bytes().to_vec();
    send.extend_from_slice(b"hello");
    assert_eq!(
        s.on_frame(&frame(0x12, 12, &send), TOKEN),
        vec![Action::Write { socket_id: 2, data: b"hello".to_vec() }]
    );
    let mut reader = system_bridge::reader::TcpReader::new(0x10000);
    let mut recv = 0x10000u32.to_le_bytes().to_vec();
    recv.extend_from_slice(b"hello");
    assert_eq!(reader.on_read(b"hello"), Some(frame(0x13, 0, &recv)));
}

#[test]
fn accepted_ids_count_up_from_the_watermark() {
    let mut s = authed();
    s.listen_result(1, 7, Some(1000));
    let first = s.accepted(7, 1, "10.0.0.1");
    let second = s.accepted(7, 2, "10.0.0.2");
    assert_eq!(first[1], Action::StartTcpIo { socket_id: 0x10000, write_queue: 32 });
    assert_eq!(second[1], Action::StartTcpIo { socket_id: 0x10001, write_queue: 32 });
    assert!(s.sockets().has_tcp_socket(0x10000));
    assert!(s.sockets().has_tcp_socket(0x10001));
    assert_eq!(s.sockets().next_socket_id(), 0x10002);
}

#[test]
fn accept_for_unregistered_listener_is_dropped() {
    let mut s = authed();
    assert_eq!(s.accepted(7, 1, "10.0.0.1"), vec![]);
    assert_eq!(s.sockets().next_socket_id(), 0x10000);
}

#[test]
fn stop_listen_aborts_the_accept_loop_and_keeps_accepted_sockets() {
    let mut s = authed();
    s.listen_result(1, 7, Some(1000));
    s.accepted(7, 1, "10.0.0.1");
    let actions = s.on_frame(&frame(0x18, 0, &7u32.to_le_bytes()), TOKEN);
    assert_eq!(actions, vec![Action::StopListen { server_id: 7 }]);
    assert!(!s.sockets().has_tcp_server(7));
    assert!(s.sockets().has_tcp_socket(0x10000));
    assert_eq!(s.on_frame(&frame(0x18, 0, &7u32.to_le_bytes()), TOKEN), vec![]);
}

#[test]
fn udp_bind_bound_send_close() {
    let mut s = authed();
    let mut bind = 9u32.to_le_bytes().to_vec();
    bind.extend_from_slice(&6881u16.to_le_bytes());
    assert_eq!(
        s.on_frame(&frame(0x20, 4, &bind), TOKEN),
        vec![Action::BindUdp {
            socket_id: 9,
            request_id: 4,
            addr: "0.0.0.0:6881".to_string(),
            reuse_address: true,
        }]
    );
    assert!(!s.sockets().has_udp_socket(9));
    assert_eq!(
        s.udp_bound(4, 9, Some(6881)),
        vec![
            Action::Send {
                frame: frame(0x21, 4, &[9, 0, 0, 0, 0, 0xE1, 0x1A, 0, 0, 0, 0])
            },
            Action::StartUdpRecv { socket_id: 9 }
        ]
    );
    assert!(s.sockets().has_udp_socket(9));
    let mut send = 9u32.to_le_bytes().to_vec();
    send.extend_from_slice(&53u16.to_le_bytes());
    send.extend_from_slice(&7u16.to_le_bytes());
    send.extend_from_slice(b"8.8.8.8");
    send.extend_from_slice(b"query");
    assert_eq!(
        s.on_frame(&frame(0x22, 0, &send), TOKEN),
        vec![Action::SendUdp {
            socket_id: 9,
            addr: "8.8.8.8:53".to_string(),
            data: b"query".to_vec()
        }]
    );
    assert_eq!(
        s.on_frame(&frame(0x24, 0, &9u32.to_le_bytes()), TOKEN),
        vec![Action::CloseUdp { socket_id: 9 }]
    );
    assert!(!s.sockets().has_udp_socket(9));
    assert_eq!(s.on_frame(&frame(0x22, 0, &send), TOKEN), vec![]);
}

#[test]
fn udp_bind_failure_reports_status_one() {
    let mut s = authed();
    assert_eq!(
        s.udp_bound(4, 9, None),
        vec![Action::Send { frame: frame(0x21, 4, &[9, 0, 0, 0, 1, 0, 0, 1, 0, 0, 0]) }]
    );
    assert!(!s.sockets().has_udp_socket(9));
}

#[test]
fn udp_send_with_truncated_address_is_ignored() {
    let mut s = authed();
    s.udp_bound(4, 9, Some(1));
    let mut send = 9u32.to_le_bytes().to_vec();
    send.extend_from_slice(&53u16.to_le_bytes());
    send.extend_from_slice(&20u16.to_le_bytes());
    send.extend_from_slice(b"8.8.8.8");
    assert_eq!(s.on_frame(&frame(0x22, 0, &send), TOKEN), vec![]);
}

#[test]
fn multicast_join_and_leave_need_a_udp_socket() {
    let mut s = authed();
    let mut payload = 9u32.to_le_bytes().to_vec();
    payload.extend_from_slice(b"239.255.255.250");
    assert_eq!(s.on_frame(&frame(0x25, 0, &payload), TOKEN), vec![]);
    s.udp_bound(4, 9, Some(1900));
    assert_eq!(
        s.on_frame(&frame(0x25, 0, &payload), TOKEN),
        vec![Action::JoinMulticast { socket_id: 9, group: "239.255.255.250".to_string() }]
    );
    assert_eq!(
        s.on_frame(&frame(0x26, 0, &payload), TOKEN),
        vec![Action::LeaveMulticast { socket_id: 9, group: "239.255.255.250".to_string() }]
    );
}

#[test]
fn disconnect_cleanup() {
    let mut s = authed();
    s.listen_result(1, 1, Some(5000));
    s.on_frame(&frame(0x10, 2, &connect_payload(10, 1, "10.255.255.1")), TOKEN);
    s.on_frame(&frame(0x10, 3, &connect_payload(11, 1, "10.255.255.2")), TOKEN);
    s.on_frame(&frame(0x10, 4, &connect_payload(12, 1, "10.255.255.3")), TOKEN);
    s.udp_bound(5, 20, Some(6000));
    s.accepted(1, 9, "127.0.0.1");
    let teardown = s.disconnect();
    assert_eq!(teardown.listeners, vec![1]);
    let mut connects = teardown.connects.clone();
    connects.sort();
    assert_eq!(connects, vec![10, 11, 12]);
    assert_eq!(teardown.tcp_sockets, vec![0x10000]);
    assert_eq!(teardown.udp_sockets, vec![20]);
    let actions = teardown.actions();
    assert_eq!(actions.len(), 7);
    assert_eq!(actions[0], Action::StopListen { server_id: 1 });
    assert!(actions[1..4].contains(&Action::CancelConnect { socket_id: 10 }));
    assert!(actions[1..4].contains(&Action::CancelConnect { socket_id: 11 }));
    assert!(actions[1..4].contains(&Action::CancelConnect { socket_id: 12 }));
    assert_eq!(actions[4], Action::CloseTcp { socket_id: 0x10000 });
    assert_eq!(actions[5], Action::CloseUdp { socket_id: 20 });
    assert_eq!(actions[6], Action::StopSender);
    assert!(s.is_closed());
    assert!(!s.sockets().has_tcp_server(1));
    assert!(!s.sockets().has_pending_connect(10));
    assert!(!s.sockets().has_tcp_socket(0x10000));
    assert!(!s.sockets().has_udp_socket(20));
}

#[test]
fn ended_session_is_silent() {
    let mut s = authed();
    s.on_frame(&frame(0x10, 2, &connect_payload(10, 1, "h")), TOKEN);
    s.listen_result(1, 1, Some(5000));
    s.disconnect();
    assert_eq!(s.on_frame(&frame(0x10, 2, &connect_payload(10, 1, "h")), TOKEN), vec![]);
    assert_eq!(s.on_frame(&frame(0x01, 2, &[]), TOKEN), vec![]);
    assert_eq!(s.connect_result(2, 10, true), vec![]);
    assert_eq!(s.listen_result(1, 1, Some(1)), vec![]);
    assert_eq!(s.accepted(1, 1, "127.0.0.1"), vec![]);
    assert_eq!(s.udp_bound(1, 1, Some(1)), vec![]);
    let again = s.disconnect();
    assert_eq!(again.actions(), vec![Action::StopSender]);
}

#[test]
fn connect_for_an_established_id_drops_the_old_socket_first() {
    let mut s = authed();
    s.on_frame(&frame(0x10, 1, &connect_payload(5, 80, "a")), TOKEN);
    s.connect_result(1, 5, true);
    assert!(s.sockets().has_tcp_socket(5));
    let actions = s.on_frame(&frame(0x10, 2, &connect_payload(5, 81, "b")), TOKEN);
    assert_eq!(
        actions,
        vec![
            Action::CloseTcp { socket_id: 5 },
            Action::Connect {
                socket_id: 5,
                request_id: 2,
                addr: "b:81".to_string(),
                timeout_secs: 30,
            }
        ]
    );
    assert!(s.sockets().has_pending_connect(5));
    assert!(!s.sockets().has_tcp_socket(5));
    s.connect_result(2, 5, true);
    assert!(!s.sockets().has_pending_connect(5));
    assert!(s.sockets().has_tcp_socket(5));
}

#[test]
fn accept_cancels_a_connect_pending_under_its_id() {
    let mut s = authed();
    s.listen_result(1, 7, Some(1000));
    s.on_frame(&frame(0x10, 2, &connect_payload(0x10000, 80, "a")), TOKEN);
    assert!(s.sockets().has_pending_connect(0x10000));
    let actions = s.accepted(7, 9, "10.0.0.1");
    assert_eq!(actions.len(), 3);
    assert_eq!(actions[0], Action::CancelConnect { socket_id: 0x10000 });
    assert_eq!(actions[2], Action::StartTcpIo { socket_id: 0x10000, write_queue: 32 });
    assert!(!s.sockets().has_pending_connect(0x10000));
    assert!(s.sockets().has_tcp_socket(0x10000));
    assert_eq!(s.connect_result(2, 0x10000, true), vec![]);
}

#[test]
fn pending_and_established_stay_apart() {
    let mut s = authed();
    s.on_frame(&frame(0x10, 1, &connect_payload(1, 80, "a")), TOKEN);
    s.on_frame(&frame(0x10, 2, &connect_payload(2, 80, "b")), TOKEN);
    s.connect_result(1, 1, true);
    s.connect_result(2, 2, false);
    for id in [1u32, 2u32] {
        assert!(!(s.sockets().has_pending_connect(id) && s.sockets().has_tcp_socket(id)));
    }
    assert!(s.sockets().has_tcp_socket(1));
    assert!(!s.sockets().has_tcp_socket(2));
}
