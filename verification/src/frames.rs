//! Byte layout of every frame the daemon sends to its client.
//!
//! Each frame is an envelope followed by an opcode-specific payload. All
//! integers are little-endian; strings are UTF-8 and fill the rest of the
//! payload unless a length field precedes them.

use crate::envelope::{
    push_u16, push_u32, u16_le, u32_le, Envelope, OP_AUTH_RESULT, OP_ERROR, OP_SERVER_HELLO,
    OP_TCP_ACCEPT, OP_TCP_CLOSE, OP_TCP_CONNECTED, OP_TCP_LISTEN_RESULT, OP_TCP_RECV, OP_UDP_BOUND,
    OP_UDP_CLOSE, OP_UDP_RECV, PROTOCOL_VERSION,
};
use crate::text::push_bytes;
use vstd::prelude::*;
use vstd::string::StringSliceAdditionalSpecFns;

verus! {

/// An envelope of the current version for `msg_type` and `request_id`,
/// followed by `payload`.
pub open spec fn frame(msg_type: u8, request_id: u32, payload: Seq<u8>) -> Seq<u8> {
    (Envelope { version: PROTOCOL_VERSION, msg_type, flags: 0, request_id }).encode() + payload
}

/// `socketId(4) status(1) errno(4)`.
pub open spec fn status_payload(id: u32, status: u8, errno: u32) -> Seq<u8> {
    u32_le(id) + seq![status] + u32_le(errno)
}

/// `id(4) status(1) boundPort(2) errno(4)`.
pub open spec fn bound_payload(id: u32, status: u8, port: u16, errno: u32) -> Seq<u8> {
    u32_le(id) + seq![status] + u16_le(port) + u32_le(errno)
}

/// `SERVER_HELLO`: empty payload.
pub open spec fn server_hello(request_id: u32) -> Seq<u8> {
    frame(OP_SERVER_HELLO, request_id, Seq::<u8>::empty())
}

/// `AUTH_RESULT` for an accepted token: the single byte 0.
pub open spec fn auth_accepted(request_id: u32) -> Seq<u8> {
    frame(OP_AUTH_RESULT, request_id, seq![0u8])
}

/// `AUTH_RESULT` for a refused token: the byte 1, then `Invalid token`.
pub open spec fn auth_refused(request_id: u32) -> Seq<u8> {
    frame(OP_AUTH_RESULT, request_id, seq![1u8] + "Invalid token".spec_bytes())
}

/// `ERROR`: the message text.
pub open spec fn error_frame(request_id: u32, message: Seq<u8>) -> Seq<u8> {
    frame(OP_ERROR, request_id, message)
}

/// `TCP_CONNECTED`: `socketId(4) status(1) errno(4)`.
pub open spec fn tcp_connected(request_id: u32, socket_id: u32, status: u8, errno: u32) -> Seq<
    u8,
> {
    frame(OP_TCP_CONNECTED, request_id, status_payload(socket_id, status, errno))
}

/// `TCP_RECV`, an event: `socketId(4) data(rest)`.
pub open spec fn tcp_recv(socket_id: u32, data: Seq<u8>) -> Seq<u8> {
    frame(OP_TCP_RECV, 0, u32_le(socket_id) + data)
}

/// `TCP_CLOSE`, an event: `socketId(4) reason(1) errno(4)`.
pub open spec fn tcp_close(socket_id: u32, reason: u8, errno: u32) -> Seq<u8> {
    frame(OP_TCP_CLOSE, 0, status_payload(socket_id, reason, errno))
}

/// `TCP_LISTEN_RESULT`: `serverId(4) status(1) boundPort(2) errno(4)`.
pub open spec fn tcp_listen_result(
    request_id: u32,
    server_id: u32,
    status: u8,
    port: u16,
    errno: u32,
) -> Seq<u8> {
    frame(OP_TCP_LISTEN_RESULT, request_id, bound_payload(server_id, status, port, errno))
}

/// `TCP_ACCEPT`, an event: `serverId(4) socketId(4) remotePort(2) remoteAddr(rest)`.
pub open spec fn tcp_accept(
    server_id: u32,
    socket_id: u32,
    remote_port: u16,
    remote_addr: Seq<u8>,
) -> Seq<u8> {
    frame(
        OP_TCP_ACCEPT,
        0,
        u32_le(server_id) + u32_le(socket_id) + u16_le(remote_port) + remote_addr,
    )
}

/// `UDP_BOUND`: `socketId(4) status(1) boundPort(2) errno(4)`.
pub open spec fn udp_bound(request_id: u32, socket_id: u32, status: u8, port: u16, errno: u32) -> Seq<
    u8,
> {
    frame(OP_UDP_BOUND, request_id, bound_payload(socket_id, status, port, errno))
}

/// `UDP_RECV`, an event:
/// `socketId(4) peerPort(2) peerAddrLen(2) peerAddr data(rest)`.
pub open spec fn udp_recv(socket_id: u32, peer_port: u16, peer_addr: Seq<u8>, data: Seq<u8>) -> Seq<
    u8,
>
    recommends
        peer_addr.len() <= u16::MAX,
{
    frame(
        OP_UDP_RECV,
        0,
        u32_le(socket_id) + u16_le(peer_port) + u16_le(peer_addr.len() as u16) + peer_addr + data,
    )
}

/// `UDP_CLOSE`, an event: `socketId(4) reason(1)=0 errno(4)=0`.
pub open spec fn udp_close(socket_id: u32) -> Seq<u8> {
    frame(OP_UDP_CLOSE, 0, status_payload(socket_id, 0, 0))
}

/// Starts a frame: writes the envelope into a fresh buffer.
pub fn begin_frame(msg_type: u8, request_id: u32) -> (out: Vec<u8>)
    ensures
        out@ == frame(msg_type, request_id, Seq::<u8>::empty()),
{
    let mut out: Vec<u8> = Vec::new();
    out.push(PROTOCOL_VERSION);
    out.push(msg_type);
    push_u16(&mut out, 0);
    push_u32(&mut out, request_id);
    assert(out@ =~= frame(msg_type, request_id, Seq::<u8>::empty()));
    out
}

/// An envelope for `msg_type` and `request_id` followed by `payload`.
pub fn build_frame(msg_type: u8, request_id: u32, payload: &[u8]) -> (out: Vec<u8>)
    ensures
        out@ == frame(msg_type, request_id, payload@),
{
    let mut out = begin_frame(msg_type, request_id);
    push_bytes(&mut out, payload);
    assert(out@ =~= frame(msg_type, request_id, payload@));
    out
}

fn push_status(out: &mut Vec<u8>, id: u32, status: u8, errno: u32)
    ensures
        final(out)@ == old(out)@ + status_payload(id, status, errno),
{
    push_u32(out, id);
    out.push(status);
    push_u32(out, errno);
    assert(out@ =~= old(out)@ + status_payload(id, status, errno));
}

fn push_bound(out: &mut Vec<u8>, id: u32, status: u8, port: u16, errno: u32)
    ensures
        final(out)@ == old(out)@ + bound_payload(id, status, port, errno),
{
    push_u32(out, id);
    out.push(status);
    push_u16(out, port);
    push_u32(out, errno);
    assert(out@ =~= old(out)@ + bound_payload(id, status, port, errno));
}

/// Builds `SERVER_HELLO`.
pub fn server_hello_frame(request_id: u32) -> (out: Vec<u8>)
    ensures
        out@ == server_hello(request_id),
{
    begin_frame(OP_SERVER_HELLO, request_id)
}

/// Builds `AUTH_RESULT` for an accepted token.
pub fn auth_accepted_frame(request_id: u32) -> (out: Vec<u8>)
    ensures
        out@ == auth_accepted(request_id),
{
    let mut out = begin_frame(OP_AUTH_RESULT, request_id);
    out.push(0);
    assert(out@ =~= auth_accepted(request_id));
    out
}

/// Builds `AUTH_RESULT` for a refused token.
pub fn auth_refused_frame(request_id: u32) -> (out: Vec<u8>)
    ensures
        out@ == auth_refused(request_id),
{
    let mut out = begin_frame(OP_AUTH_RESULT, request_id);
    out.push(1);
    push_bytes(&mut out, "Invalid token".as_bytes());
    assert(out@ =~= auth_refused(request_id));
    out
}

/// Builds `ERROR` with the given message.
pub fn build_error_frame(request_id: u32, message: &str) -> (out: Vec<u8>)
    ensures
        out@ == error_frame(request_id, message.spec_bytes()),
{
    build_frame(OP_ERROR, request_id, message.as_bytes())
}

/// Builds `TCP_CONNECTED`.
pub fn tcp_connected_frame(request_id: u32, socket_id: u32, status: u8, errno: u32) -> (out: Vec<
    u8,
>)
    ensures
        out@ == tcp_connected(request_id, socket_id, status, errno),
{
    let mut out = begin_frame(OP_TCP_CONNECTED, request_id);
    push_status(&mut out, socket_id, status, errno);
    assert(out@ =~= tcp_connected(request_id, socket_id, status, errno));
    out
}

/// Builds `TCP_RECV` carrying exactly `data`.
pub fn tcp_recv_frame(socket_id: u32, data: &[u8]) -> (out: Vec<u8>)
    ensures
        out@ == tcp_recv(socket_id, data@),
{
    let mut out = begin_frame(OP_TCP_RECV, 0);
    push_u32(&mut out, socket_id);
    push_bytes(&mut out, data);
    assert(out@ =~= tcp_recv(socket_id, data@));
    out
}

/// Builds `TCP_CLOSE`.
pub fn tcp_close_frame(socket_id: u32, reason: u8, errno: u32) -> (out: Vec<u8>)
    ensures
        out@ == tcp_close(socket_id, reason, errno),
{
    let mut out = begin_frame(OP_TCP_CLOSE, 0);
    push_status(&mut out, socket_id, reason, errno);
    assert(out@ =~= tcp_close(socket_id, reason, errno));
    out
}

/// Builds `TCP_LISTEN_RESULT`.
pub fn tcp_listen_result_frame(
    request_id: u32,
    server_id: u32,
    status: u8,
    port: u16,
    errno: u32,
) -> (out: Vec<u8>)
    ensures
        out@ == tcp_listen_result(request_id, server_id, status, port, errno),
{
    let mut out = begin_frame(OP_TCP_LISTEN_RESULT, request_id);
    push_bound(&mut out, server_id, status, port, errno);
    assert(out@ =~= tcp_listen_result(request_id, server_id, status, port, errno));
    out
}

/// Builds `TCP_ACCEPT`.
pub fn tcp_accept_frame(server_id: u32, socket_id: u32, remote_port: u16, remote_addr: &str) -> (out:
    Vec<u8>)
    ensures
        out@ == tcp_accept(server_id, socket_id, remote_port, remote_addr.spec_bytes()),
{
    let mut out = begin_frame(OP_TCP_ACCEPT, 0);
    push_u32(&mut out, server_id);
    push_u32(&mut out, socket_id);
    push_u16(&mut out, remote_port);
    push_bytes(&mut out, remote_addr.as_bytes());
    assert(out@ =~= tcp_accept(server_id, socket_id, remote_port, remote_addr.spec_bytes()));
    out
}

/// Builds `UDP_BOUND`.
pub fn udp_bound_frame(request_id: u32, socket_id: u32, status: u8, port: u16, errno: u32) -> (out:
    Vec<u8>)
    ensures
        out@ == udp_bound(request_id, socket_id, status, port, errno),
{
    let mut out = begin_frame(OP_UDP_BOUND, request_id);
    push_bound(&mut out, socket_id, status, port, errno);
    assert(out@ =~= udp_bound(request_id, socket_id, status, port, errno));
    out
}

/// Builds `UDP_RECV`. The address length is carried in two bytes, so the
/// address must not be longer than 65535 bytes.
pub fn udp_recv_frame(socket_id: u32, peer_port: u16, peer_addr: &str, data: &[u8]) -> (out: Vec<
    u8,
>)
    requires
        peer_addr.spec_bytes().len() <= u16::MAX,
    ensures
        out@ == udp_recv(socket_id, peer_port, peer_addr.spec_bytes(), data@),
{
    let addr = peer_addr.as_bytes();
    let mut out = begin_frame(OP_UDP_RECV, 0);
    push_u32(&mut out, socket_id);
    push_u16(&mut out, peer_port);
    push_u16(&mut out, addr.len() as u16);
    push_bytes(&mut out, addr);
    push_bytes(&mut out, data);
    assert(out@ =~= udp_recv(socket_id, peer_port, peer_addr.spec_bytes(), data@));
    out
}

/// Builds `UDP_CLOSE`.
pub fn udp_close_frame(socket_id: u32) -> (out: Vec<u8>)
    ensures
        out@ == udp_close(socket_id),
{
    let mut out = begin_frame(OP_UDP_CLOSE, 0);
    push_status(&mut out, socket_id, 0, 0);
    assert(out@ =~= udp_close(socket_id));
    out
}

} // verus!
