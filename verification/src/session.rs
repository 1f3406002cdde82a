//! The state machine of one WebSocket session.
//!
//! A session starts unauthenticated, becomes authenticated by a valid token
//! and then serves socket requests until it is closed. Every entry point
//! takes the current state and one input (a frame from the client, or the
//! result of work done for the session) and yields the next state and the
//! list of actions to perform, in order. The caller owns the transport, the
//! sockets and the tasks: it performs the actions and reports results back.

use crate::envelope::{
    read_u16, read_u32, u16_at, u32_at, Envelope, OP_AUTH, OP_CLIENT_HELLO, OP_TCP_CLOSE,
    OP_TCP_CONNECT, OP_TCP_LISTEN, OP_TCP_SEND, OP_TCP_STOP_LISTEN, OP_UDP_BIND, OP_UDP_CLOSE,
    OP_UDP_JOIN_MULTICAST, OP_UDP_LEAVE_MULTICAST, OP_UDP_SEND, PROTOCOL_VERSION,
};
use crate::frames::{
    auth_accepted, auth_accepted_frame, auth_refused, auth_refused_frame, build_error_frame,
    error_frame, server_hello, server_hello_frame, tcp_accept, tcp_accept_frame, tcp_connected,
    tcp_connected_frame, tcp_listen_result, tcp_listen_result_frame, udp_bound, udp_bound_frame,
};
use crate::registry::{RegistryView, SocketRegistry};
use crate::auth::token_matches;
use crate::text::{format_host_port, host_port, lossy_string, utf8_lossy};
use vstd::prelude::*;
use vstd::slice::{slice_subrange, slice_to_vec};
use vstd::string::StringSliceAdditionalSpecFns;

verus! {

/// Seconds after which a connect attempt is given up.
pub const CONNECT_TIMEOUT_SECS: u64 = 30;

/// Frames the outbound channel of a session holds before senders wait.
pub const OUTBOUND_CAPACITY: usize = 100;

/// Writes one socket's queue holds before `TCP_SEND` waits.
pub const WRITE_QUEUE_CAPACITY: usize = 32;

/// One thing the caller must do for the session.
#[derive(Clone, Debug, PartialEq, Eq)]
pub enum Action {
    /// Put this frame on the outbound channel.
    Send { frame: Vec<u8> },
    /// Stop reading from the client; the session is over.
    Terminate,
    /// Start a connect attempt to `addr`, to be reported with `request_id`
    /// and given up as failed after `timeout_secs` seconds.
    Connect { socket_id: u32, request_id: u32, addr: String, timeout_secs: u64 },
    /// Abort the connect attempt for `socket_id`.
    CancelConnect { socket_id: u32 },
    /// Start the read and write tasks of the established socket; its write
    /// queue holds `write_queue` writes.
    StartTcpIo { socket_id: u32, write_queue: usize },
    /// Queue `data` for writing on the socket.
    Write { socket_id: u32, data: Vec<u8> },
    /// Drop the write queue of the socket.
    CloseTcp { socket_id: u32 },
    /// Bind a listener to `addr`, to be reported with `request_id`.
    Listen { server_id: u32, request_id: u32, addr: String },
    /// Start the accept loop of the bound listener.
    StartAccept { server_id: u32 },
    /// Abort the accept loop of the listener.
    StopListen { server_id: u32 },
    /// Bind a UDP socket to `addr`, with address reuse if `reuse_address`.
    BindUdp { socket_id: u32, request_id: u32, addr: String, reuse_address: bool },
    /// Start the receive loop of the bound UDP socket.
    StartUdpRecv { socket_id: u32 },
    /// Send one datagram to `addr`.
    SendUdp { socket_id: u32, addr: String, data: Vec<u8> },
    /// Drop the UDP socket.
    CloseUdp { socket_id: u32 },
    /// Join the multicast group on the unspecified interface.
    JoinMulticast { socket_id: u32, group: String },
    /// Leave the multicast group on the unspecified interface.
    LeaveMulticast { socket_id: u32, group: String },
    /// Abort the task that writes to the client.
    StopSender,
}

/// An [`Action`] as a mathematical value.
pub enum Effect {
    Send { frame: Seq<u8> },
    Terminate,
    Connect { socket_id: u32, request_id: u32, addr: Seq<char>, timeout_secs: u64 },
    CancelConnect { socket_id: u32 },
    StartTcpIo { socket_id: u32, write_queue: usize },
    Write { socket_id: u32, data: Seq<u8> },
    CloseTcp { socket_id: u32 },
    Listen { server_id: u32, request_id: u32, addr: Seq<char> },
    StartAccept { server_id: u32 },
    StopListen { server_id: u32 },
    BindUdp { socket_id: u32, request_id: u32, addr: Seq<char>, reuse_address: bool },
    StartUdpRecv { socket_id: u32 },
    SendUdp { socket_id: u32, addr: Seq<char>, data: Seq<u8> },
    CloseUdp { socket_id: u32 },
    JoinMulticast { socket_id: u32, group: Seq<char> },
    LeaveMulticast { socket_id: u32, group: Seq<char> },
    StopSender,
}

impl View for Action {
    type V = Effect;

    open spec fn view(&self) -> Effect {
        match *self {
            Action::Send { frame } => Effect::Send { frame: frame@ },
            Action::Terminate => Effect::Terminate,
            Action::Connect { socket_id, request_id, addr, timeout_secs } => Effect::Connect {
                socket_id,
                request_id,
                addr: addr@,
                timeout_secs,
            },
            Action::CancelConnect { socket_id } => Effect::CancelConnect { socket_id },
            Action::StartTcpIo { socket_id, write_queue } => Effect::StartTcpIo {
                socket_id,
                write_queue,
            },
            Action::Write { socket_id, data } => Effect::Write { socket_id, data: data@ },
            Action::CloseTcp { socket_id } => Effect::CloseTcp { socket_id },
            Action::Listen { server_id, request_id, addr } => Effect::Listen {
                server_id,
                request_id,
                addr: addr@,
            },
            Action::StartAccept { server_id } => Effect::StartAccept { server_id },
            Action::StopListen { server_id } => Effect::StopListen { server_id },
            Action::BindUdp { socket_id, request_id, addr, reuse_address } => Effect::BindUdp {
                socket_id,
                request_id,
                addr: addr@,
                reuse_address,
            },
            Action::StartUdpRecv { socket_id } => Effect::StartUdpRecv { socket_id },
            Action::SendUdp { socket_id, addr, data } => Effect::SendUdp {
                socket_id,
                addr: addr@,
                data: data@,
            },
            Action::CloseUdp { socket_id } => Effect::CloseUdp { socket_id },
            Action::JoinMulticast { socket_id, group } => Effect::JoinMulticast {
                socket_id,
                group: group@,
            },
            Action::LeaveMulticast { socket_id, group } => Effect::LeaveMulticast {
                socket_id,
                group: group@,
            },
            Action::StopSender => Effect::StopSender,
        }
    }
}

/// The effects that a list of actions stands for.
pub open spec fn effects_of(actions: Seq<Action>) -> Seq<Effect> {
    actions.map_values(|a: Action| a@)
}

/// The state of a session as a mathematical value.
pub struct SessionState {
    pub authenticated: bool,
    pub closed: bool,
    pub sockets: RegistryView,
}

/// The outcome of one input: the next state and what to do.
pub struct Step {
    pub next: SessionState,
    pub effects: Seq<Effect>,
}

/// Number of bytes before the first zero byte of `data`; all of them where
/// there is none.
pub open spec fn token_end(data: Seq<u8>) -> int
    decreases data.len(),
{
    if data.len() == 0 || data[0] == 0 {
        0
    } else {
        1 + token_end(data.drop_first())
    }
}

/// The address a listener or UDP socket is bound to: an empty host stands
/// for `0.0.0.0`.
pub open spec fn bind_address(host: Seq<char>, port: u16) -> Seq<char> {
    if host.len() == 0 {
        host_port("0.0.0.0"@, port)
    } else {
        host_port(host, port)
    }
}

impl SessionState {
    /// A fresh session: not authenticated, open, no sockets.
    pub open spec fn initial() -> SessionState {
        SessionState { authenticated: false, closed: false, sockets: RegistryView::empty() }
    }

    /// The session serves socket requests.
    pub open spec fn active(self) -> bool {
        self.authenticated && !self.closed
    }

    /// Nothing happens.
    pub open spec fn stay(self) -> Step {
        Step { next: self, effects: Seq::empty() }
    }

    /// A protocol error: `frame` is sent and the session ends.
    pub open spec fn refuse(self, frame: Seq<u8>) -> Step {
        Step {
            next: SessionState { closed: true, ..self },
            effects: seq![Effect::Send { frame }, Effect::Terminate],
        }
    }

    /// `CLIENT_HELLO` before authentication is answered by `SERVER_HELLO`.
    pub open spec fn hello(self, request_id: u32) -> Step {
        if self.closed || self.authenticated {
            self.stay()
        } else {
            Step { next: self, effects: seq![Effect::Send { frame: server_hello(request_id) }] }
        }
    }

    /// The token offered in `AUTH` is compared with the process token.
    pub open spec fn authenticate(self, request_id: u32, candidate: Seq<char>, token: Seq<char>) -> Step {
        if self.closed || self.authenticated {
            self.stay()
        } else if candidate == token {
            Step {
                next: SessionState { authenticated: true, ..self },
                effects: seq![Effect::Send { frame: auth_accepted(request_id) }],
            }
        } else {
            self.refuse(auth_refused(request_id))
        }
    }

    /// What a connect for `socket_id` asks of the caller before the attempt
    /// starts: an established socket under that id is dropped, so that the
    /// id names the new connection only.
    pub open spec fn displaced(self, socket_id: u32) -> Seq<Effect> {
        if self.sockets.tcp_sockets.contains(socket_id) {
            seq![Effect::CloseTcp { socket_id }]
        } else {
            Seq::empty()
        }
    }

    /// `TCP_CONNECT`: the id becomes pending and a connect attempt starts.
    /// No id is pending and established at once: a socket established
    /// under the id is dropped first.
    pub open spec fn connect(self, request_id: u32, socket_id: u32, addr: Seq<char>) -> Step {
        if !self.active() {
            self.stay()
        } else {
            Step {
                next: SessionState { sockets: self.sockets.begin_connect(socket_id), ..self },
                effects: self.displaced(socket_id) + seq![
                    Effect::Connect {
                        socket_id,
                        request_id,
                        addr,
                        timeout_secs: CONNECT_TIMEOUT_SECS,
                    },
                ],
            }
        }
    }

    /// A connect attempt has ended. For an id that is no longer pending the
    /// result is dropped without a frame. Otherwise the id leaves the
    /// pending table; on success it becomes established, `TCP_CONNECTED`
    /// reports status 0 and its I/O starts; on failure `TCP_CONNECTED`
    /// reports status 1 and errno 1.
    pub open spec fn connect_result(self, request_id: u32, socket_id: u32, ok: bool) -> Step {
        if self.closed || !self.sockets.pending_connects.contains(socket_id) {
            self.stay()
        } else if ok {
            Step {
                next: SessionState { sockets: self.sockets.finish_connect(socket_id, true), ..self },
                effects: seq![
                    Effect::Send { frame: tcp_connected(request_id, socket_id, 0, 0) },
                    Effect::StartTcpIo { socket_id, write_queue: WRITE_QUEUE_CAPACITY },
                ],
            }
        } else {
            Step {
                next: SessionState {
                    sockets: self.sockets.finish_connect(socket_id, false),
                    ..self
                },
                effects: seq![Effect::Send { frame: tcp_connected(request_id, socket_id, 1, 1) }],
            }
        }
    }

    /// `TCP_SEND`: data for a known socket is queued; for an unknown id
    /// nothing happens.
    pub open spec fn send(self, socket_id: u32, data: Seq<u8>) -> Step {
        if self.active() && self.sockets.tcp_sockets.contains(socket_id) {
            Step { next: self, effects: seq![Effect::Write { socket_id, data }] }
        } else {
            self.stay()
        }
    }

    /// What closing `socket_id` asks of the caller.
    pub open spec fn close_effects(self, socket_id: u32) -> Seq<Effect> {
        let established: Seq<Effect> = if self.sockets.tcp_sockets.contains(socket_id) {
            seq![Effect::CloseTcp { socket_id }]
        } else {
            Seq::empty()
        };
        let pending: Seq<Effect> = if self.sockets.pending_connects.contains(socket_id) {
            seq![Effect::CancelConnect { socket_id }]
        } else {
            Seq::empty()
        };
        established + pending
    }

    /// `TCP_CLOSE`: the socket's write queue is dropped and a pending
    /// connect for the id is aborted. No frame is sent.
    pub open spec fn close(self, socket_id: u32) -> Step {
        if !self.active() {
            self.stay()
        } else {
            Step {
                next: SessionState { sockets: self.sockets.close_tcp(socket_id), ..self },
                effects: self.close_effects(socket_id),
            }
        }
    }

    /// `TCP_LISTEN`: a bind is started.
    pub open spec fn listen(self, request_id: u32, server_id: u32, addr: Seq<char>) -> Step {
        if !self.active() {
            self.stay()
        } else {
            Step { next: self, effects: seq![Effect::Listen { server_id, request_id, addr }] }
        }
    }

    /// A bind has ended. On success the listener is registered,
    /// `TCP_LISTEN_RESULT` reports status 0 and the bound port, and the
    /// accept loop starts; on failure it reports status 1, port 0, errno 1.
    pub open spec fn listen_result(self, request_id: u32, server_id: u32, bound: Option<u16>) -> Step {
        if self.closed {
            self.stay()
        } else {
            match bound {
                Some(port) => Step {
                    next: SessionState {
                        sockets: RegistryView {
                            tcp_servers: self.sockets.tcp_servers.insert(server_id),
                            ..self.sockets
                        },
                        ..self
                    },
                    effects: seq![
                        Effect::Send { frame: tcp_listen_result(request_id, server_id, 0, port, 0) },
                        Effect::StartAccept { server_id },
                    ],
                },
                None => Step {
                    next: self,
                    effects: seq![
                        Effect::Send { frame: tcp_listen_result(request_id, server_id, 1, 0, 1) },
                    ],
                },
            }
        }
    }

    /// `TCP_STOP_LISTEN`: the accept loop of a known listener is aborted.
    pub open spec fn stop_listen(self, server_id: u32) -> Step {
        if self.active() && self.sockets.tcp_servers.contains(server_id) {
            Step {
                next: SessionState {
                    sockets: RegistryView {
                        tcp_servers: self.sockets.tcp_servers.remove(server_id),
                        ..self.sockets
                    },
                    ..self
                },
                effects: seq![Effect::StopListen { server_id }],
            }
        } else {
            self.stay()
        }
    }

    /// What an accept asks of the caller before the connection is
    /// announced: a connect that is pending under the id it takes is
    /// cancelled, so that the id names the accepted connection only.
    pub open spec fn overtaken(self) -> Seq<Effect> {
        if self.sockets.pending_connects.contains(self.sockets.next_socket_id) {
            seq![Effect::CancelConnect { socket_id: self.sockets.next_socket_id }]
        } else {
            Seq::empty()
        }
    }

    /// A listener has accepted a connection. It gets the next id of the
    /// counter, is announced by `TCP_ACCEPT`, and then its I/O starts. A
    /// connection of a listener that is not registered, or one for which no
    /// id is left, is dropped. No id is pending and established at once: a
    /// connect pending under the id is cancelled first.
    pub open spec fn accepted(self, server_id: u32, remote_port: u16, remote_addr: Seq<u8>) -> Step {
        if self.closed || !self.sockets.tcp_servers.contains(server_id)
            || !self.sockets.can_accept() {
            self.stay()
        } else {
            Step {
                next: SessionState { sockets: self.sockets.accept(), ..self },
                effects: self.overtaken() + seq![
                    Effect::Send {
                        frame: tcp_accept(
                            server_id,
                            self.sockets.next_socket_id,
                            remote_port,
                            remote_addr,
                        ),
                    },
                    Effect::StartTcpIo {
                        socket_id: self.sockets.next_socket_id,
                        write_queue: WRITE_QUEUE_CAPACITY,
                    },
                ],
            }
        }
    }

    /// `UDP_BIND`: a bind is started.
    pub open spec fn udp_bind(self, request_id: u32, socket_id: u32, addr: Seq<char>) -> Step {
        if !self.active() {
            self.stay()
        } else {
            Step {
                next: self,
                effects: seq![
                    Effect::BindUdp { socket_id, request_id, addr, reuse_address: true },
                ],
            }
        }
    }

    /// A UDP bind has ended. On success the socket is registered,
    /// `UDP_BOUND` reports status 0 and the bound port, and the receive
    /// loop starts; on failure it reports status 1, port 0, errno 1.
    pub open spec fn udp_bound(self, request_id: u32, socket_id: u32, bound: Option<u16>) -> Step {
        if self.closed {
            self.stay()
        } else {
            match bound {
                Some(port) => Step {
                    next: SessionState {
                        sockets: RegistryView {
                            udp_sockets: self.sockets.udp_sockets.insert(socket_id),
                            ..self.sockets
                        },
                        ..self
                    },
                    effects: seq![
                        Effect::Send { frame: udp_bound(request_id, socket_id, 0, port, 0) },
                        Effect::StartUdpRecv { socket_id },
                    ],
                },
                None => Step {
                    next: self,
                    effects: seq![
                        Effect::Send { frame: udp_bound(request_id, socket_id, 1, 0, 1) },
                    ],
                },
            }
        }
    }

    /// `UDP_SEND`: a datagram for a known socket is sent.
    pub open spec fn udp_send(self, socket_id: u32, addr: Seq<char>, data: Seq<u8>) -> Step {
        if self.active() && self.sockets.udp_sockets.contains(socket_id) {
            Step { next: self, effects: seq![Effect::SendUdp { socket_id, addr, data }] }
        } else {
            self.stay()
        }
    }

    /// `UDP_CLOSE`: a known socket is dropped.
    pub open spec fn udp_close(self, socket_id: u32) -> Step {
        if self.active() && self.sockets.udp_sockets.contains(socket_id) {
            Step {
                next: SessionState {
                    sockets: RegistryView {
                        udp_sockets: self.sockets.udp_sockets.remove(socket_id),
                        ..self.sockets
                    },
                    ..self
                },
                effects: seq![Effect::CloseUdp { socket_id }],
            }
        } else {
            self.stay()
        }
    }

    /// `UDP_JOIN_MULTICAST` for a known socket.
    pub open spec fn join_multicast(self, socket_id: u32, group: Seq<char>) -> Step {
        if self.active() && self.sockets.udp_sockets.contains(socket_id) {
            Step { next: self, effects: seq![Effect::JoinMulticast { socket_id, group }] }
        } else {
            self.stay()
        }
    }

    /// `UDP_LEAVE_MULTICAST` for a known socket.
    pub open spec fn leave_multicast(self, socket_id: u32, group: Seq<char>) -> Step {
        if self.active() && self.sockets.udp_sockets.contains(socket_id) {
            Step { next: self, effects: seq![Effect::LeaveMulticast { socket_id, group }] }
        } else {
            self.stay()
        }
    }

    /// An `ERROR` frame with `message` ends the session.
    pub open spec fn protocol_error(self, request_id: u32, message: Seq<char>) -> Step {
        if self.closed {
            self.stay()
        } else {
            self.refuse(error_frame(request_id, vstd::utf8::encode_utf8(message)))
        }
    }

    /// A frame that arrives before authentication.
    pub open spec fn before_auth(self, env: Envelope, payload: Seq<u8>, token: Seq<char>) -> Step {
        if env.msg_type == OP_CLIENT_HELLO {
            self.hello(env.request_id)
        } else if env.msg_type == OP_AUTH {
            if payload.len() == 0 {
                self.protocol_error(env.request_id, "Empty auth payload"@)
            } else if payload[0] == 0 {
                let data = payload.skip(1);
                self.authenticate(
                    env.request_id,
                    utf8_lossy(data.take(token_end(data))),
                    token,
                )
            } else if payload[0] == 1 {
                self.authenticate(env.request_id, utf8_lossy(payload.skip(1)), token)
            } else {
                self.protocol_error(env.request_id, "Unknown auth type"@)
            }
        } else {
            self.protocol_error(env.request_id, "Authentication required"@)
        }
    }

    /// A frame that arrives after authentication. A payload too short for
    /// its opcode is ignored; an opcode that is no request ends the session.
    pub open spec fn request(self, env: Envelope, payload: Seq<u8>) -> Step {
        let op = env.msg_type;
        if op == OP_TCP_CONNECT {
            if payload.len() < 6 {
                self.stay()
            } else {
                self.connect(
                    env.request_id,
                    u32_at(payload, 0),
                    host_port(utf8_lossy(payload.skip(6)), u16_at(payload, 4)),
                )
            }
        } else if op == OP_TCP_SEND {
            if payload.len() < 4 {
                self.stay()
            } else {
                self.send(u32_at(payload, 0), payload.skip(4))
            }
        } else if op == OP_TCP_CLOSE {
            if payload.len() < 4 {
                self.stay()
            } else {
                self.close(u32_at(payload, 0))
            }
        } else if op == OP_TCP_LISTEN {
            if payload.len() < 6 {
                self.stay()
            } else {
                self.listen(
                    env.request_id,
                    u32_at(payload, 0),
                    bind_address(utf8_lossy(payload.skip(6)), u16_at(payload, 4)),
                )
            }
        } else if op == OP_TCP_STOP_LISTEN {
            if payload.len() < 4 {
                self.stay()
            } else {
                self.stop_listen(u32_at(payload, 0))
            }
        } else if op == OP_UDP_BIND {
            if payload.len() < 6 {
                self.stay()
            } else {
                self.udp_bind(
                    env.request_id,
                    u32_at(payload, 0),
                    bind_address(utf8_lossy(payload.skip(6)), u16_at(payload, 4)),
                )
            }
        } else if op == OP_UDP_SEND {
            if payload.len() < 8 || payload.len() < 8 + u16_at(payload, 6) {
                self.stay()
            } else {
                let end = 8 + u16_at(payload, 6);
                self.udp_send(
                    u32_at(payload, 0),
                    host_port(utf8_lossy(payload.subrange(8, end)), u16_at(payload, 4)),
                    payload.skip(end),
                )
            }
        } else if op == OP_UDP_CLOSE {
            if payload.len() < 4 {
                self.stay()
            } else {
                self.udp_close(u32_at(payload, 0))
            }
        } else if op == OP_UDP_JOIN_MULTICAST {
            if payload.len() < 4 {
                self.stay()
            } else {
                self.join_multicast(u32_at(payload, 0), utf8_lossy(payload.skip(4)))
            }
        } else if op == OP_UDP_LEAVE_MULTICAST {
            if payload.len() < 4 {
                self.stay()
            } else {
                self.leave_multicast(u32_at(payload, 0), utf8_lossy(payload.skip(4)))
            }
        } else {
            self.protocol_error(env.request_id, "Unknown opcode"@)
        }
    }

    /// One binary frame from the client. Frames shorter than an envelope
    /// are dropped; a frame of another protocol version ends the session.
    pub open spec fn frame(self, data: Seq<u8>, token: Seq<char>) -> Step {
        if self.closed || data.len() < 8 {
            self.stay()
        } else {
            let env = Envelope::decode(data);
            if env.version != PROTOCOL_VERSION {
                self.protocol_error(env.request_id, "Invalid protocol version"@)
            } else if !self.authenticated {
                self.before_auth(env, data.skip(8), token)
            } else {
                self.request(env, data.skip(8))
            }
        }
    }
}

/// No action at all: the empty list.
fn nothing() -> (v: Vec<Action>)
    ensures
        v@.len() == 0,
        effects_of(v@) == Seq::<Effect>::empty(),
{
    let v: Vec<Action> = Vec::new();
    assert(effects_of(v@) =~= Seq::<Effect>::empty());
    v
}

fn single(a: Action) -> (v: Vec<Action>)
    ensures
        effects_of(v@) == seq![a@],
{
    let mut v: Vec<Action> = Vec::new();
    v.push(a);
    assert(effects_of(v@) =~= seq![a@]);
    v
}

fn pair(a: Action, b: Action) -> (v: Vec<Action>)
    ensures
        effects_of(v@) == seq![a@, b@],
{
    let mut v: Vec<Action> = Vec::new();
    v.push(a);
    v.push(b);
    assert(effects_of(v@) =~= seq![a@, b@]);
    v
}

/// Length of the token at the front of `data`: the bytes before the first
/// zero byte.
pub fn find_token_end(data: &[u8]) -> (end: usize)
    ensures
        end == token_end(data@),
        end <= data@.len(),
{
    let mut i: usize = 0;
    assert(data@.skip(0) =~= data@);
    while i < data.len() && data[i] != 0
        invariant
            i <= data@.len(),
            token_end(data@) == i + token_end(data@.skip(i as int)),
        decreases data@.len() - i,
    {
        assert(data@.skip(i as int).drop_first() =~= data@.skip(i + 1));
        i += 1;
    }
    i
}

/// The address string for a listener or UDP socket.
pub fn format_bind_address(host: &str, port: u16) -> (addr: String)
    ensures
        addr@ == bind_address(host@, port),
{
    if host.unicode_len() == 0 {
        format_host_port("0.0.0.0", port)
    } else {
        format_host_port(host, port)
    }
}

/// One WebSocket session: whether it has authenticated, whether it has
/// ended, and which socket ids are live.
pub struct Session {
    authenticated: bool,
    closed: bool,
    sockets: SocketRegistry,
}

impl View for Session {
    type V = SessionState;

    closed spec fn view(&self) -> SessionState {
        SessionState {
            authenticated: self.authenticated,
            closed: self.closed,
            sockets: self.sockets@,
        }
    }
}

impl Session {
    /// A fresh session.
    pub fn new() -> (s: Session)
        ensures
            s@ == SessionState::initial(),
    {
        Session { authenticated: false, closed: false, sockets: SocketRegistry::new() }
    }

    /// Whether the client has presented the process token.
    pub fn is_authenticated(&self) -> (b: bool)
        ensures
            b == self@.authenticated,
    {
        self.authenticated
    }

    /// Whether the session has ended.
    pub fn is_closed(&self) -> (b: bool)
        ensures
            b == self@.closed,
    {
        self.closed
    }

    /// The live socket ids.
    pub fn sockets(&self) -> (r: &SocketRegistry)
        ensures
            r@ == self@.sockets,
    {
        &self.sockets
    }

    fn refuse(&mut self, frame: Vec<u8>) -> (actions: Vec<Action>)
        ensures
            final(self)@ == old(self)@.refuse(frame@).next,
            effects_of(actions@) == old(self)@.refuse(frame@).effects,
    {
        self.closed = true;
        pair(Action::Send { frame }, Action::Terminate)
    }

    /// Ends the session with an `ERROR` frame that carries `message`.
    pub fn protocol_error(&mut self, request_id: u32, message: &str) -> (actions: Vec<Action>)
        ensures
            final(self)@ == old(self)@.protocol_error(request_id, message@).next,
            effects_of(actions@) == old(self)@.protocol_error(request_id, message@).effects,
    {
        if self.closed {
            return nothing();
        }
        let frame = build_error_frame(request_id, message);
        self.refuse(frame)
    }

    /// Answers `CLIENT_HELLO`.
    pub fn hello(&mut self, request_id: u32) -> (actions: Vec<Action>)
        ensures
            final(self)@ == old(self)@.hello(request_id).next,
            effects_of(actions@) == old(self)@.hello(request_id).effects,
    {
        if self.closed || self.authenticated {
            return nothing();
        }
        single(Action::Send { frame: server_hello_frame(request_id) })
    }

    /// Checks the token offered in `AUTH` against the process token.
    pub fn authenticate(&mut self, request_id: u32, candidate: &str, token: &str) -> (actions: Vec<
        Action,
    >)
        ensures
            final(self)@ == old(self)@.authenticate(request_id, candidate@, token@).next,
            effects_of(actions@) == old(self)@.authenticate(request_id, candidate@, token@).effects,
    {
        if self.closed || self.authenticated {
            return nothing();
        }
        if token_matches(candidate, token) {
            self.authenticated = true;
            single(Action::Send { frame: auth_accepted_frame(request_id) })
        } else {
            self.refuse(auth_refused_frame(request_id))
        }
    }

    /// Serves `TCP_CONNECT`.
    pub fn connect(&mut self, request_id: u32, socket_id: u32, addr: String) -> (actions: Vec<
        Action,
    >)
        ensures
            final(self)@ == old(self)@.connect(request_id, socket_id, addr@).next,
            effects_of(actions@) == old(self)@.connect(request_id, socket_id, addr@).effects,
    {
        if !self.authenticated || self.closed {
            return nothing();
        }
        let mut actions: Vec<Action> = Vec::new();
        if self.sockets.begin_connect(socket_id) {
            actions.push(Action::CloseTcp { socket_id });
        }
        let ghost before = actions@;
        assert(effects_of(before) =~= old(self)@.displaced(socket_id));
        actions.push(
            Action::Connect { socket_id, request_id, addr, timeout_secs: CONNECT_TIMEOUT_SECS },
        );
        assert(effects_of(actions@) =~= effects_of(before).push(
            Effect::Connect {
                socket_id,
                request_id,
                addr: addr@,
                timeout_secs: CONNECT_TIMEOUT_SECS,
            },
        ));
        assert(effects_of(actions@) =~= old(self)@.connect(request_id, socket_id, addr@).effects);
        actions
    }

    /// Takes the result of a connect attempt.
    pub fn connect_result(&mut self, request_id: u32, socket_id: u32, ok: bool) -> (actions: Vec<
        Action,
    >)
        ensures
            final(self)@ == old(self)@.connect_result(request_id, socket_id, ok).next,
            effects_of(actions@) == old(self)@.connect_result(request_id, socket_id, ok).effects,
    {
        if self.closed {
            return nothing();
        }
        if !self.sockets.finish_connect(socket_id, ok) {
            return nothing();
        }
        if ok {
            pair(
                Action::Send { frame: tcp_connected_frame(request_id, socket_id, 0, 0) },
                Action::StartTcpIo { socket_id, write_queue: WRITE_QUEUE_CAPACITY },
            )
        } else {
            single(Action::Send { frame: tcp_connected_frame(request_id, socket_id, 1, 1) })
        }
    }

    /// Serves `TCP_SEND`.
    pub fn send(&mut self, socket_id: u32, data: Vec<u8>) -> (actions: Vec<Action>)
        ensures
            final(self)@ == old(self)@.send(socket_id, data@).next,
            effects_of(actions@) == old(self)@.send(socket_id, data@).effects,
    {
        if self.authenticated && !self.closed && self.sockets.has_tcp_socket(socket_id) {
            single(Action::Write { socket_id, data })
        } else {
            nothing()
        }
    }

    /// Serves `TCP_CLOSE`.
    pub fn close(&mut self, socket_id: u32) -> (actions: Vec<Action>)
        ensures
            final(self)@ == old(self)@.close(socket_id).next,
            effects_of(actions@) == old(self)@.close(socket_id).effects,
    {
        if !self.authenticated || self.closed {
            return nothing();
        }
        let was = self.sockets.close_tcp(socket_id);
        let mut actions: Vec<Action> = Vec::new();
        if was.0 {
            actions.push(Action::CloseTcp { socket_id });
        }
        if was.1 {
            actions.push(Action::CancelConnect { socket_id });
        }
        assert(effects_of(actions@) =~= old(self)@.close_effects(socket_id));
        actions
    }

    /// Serves `TCP_LISTEN`.
    pub fn listen(&mut self, request_id: u32, server_id: u32, addr: String) -> (actions: Vec<
        Action,
    >)
        ensures
            final(self)@ == old(self)@.listen(request_id, server_id, addr@).next,
            effects_of(actions@) == old(self)@.listen(request_id, server_id, addr@).effects,
    {
        if !self.authenticated || self.closed {
            return nothing();
        }
        single(Action::Listen { server_id, request_id, addr })
    }

    /// Takes the result of a bind: the bound port, or `None` on failure.
    pub fn listen_result(&mut self, request_id: u32, server_id: u32, bound: Option<u16>) -> (actions:
        Vec<Action>)
        ensures
            final(self)@ == old(self)@.listen_result(request_id, server_id, bound).next,
            effects_of(actions@) == old(self)@.listen_result(request_id, server_id, bound).effects,
    {
        if self.closed {
            return nothing();
        }
        match bound {
            Some(port) => {
                self.sockets.add_tcp_server(server_id);
                pair(
                    Action::Send {
                        frame: tcp_listen_result_frame(request_id, server_id, 0, port, 0),
                    },
                    Action::StartAccept { server_id },
                )
            },
            None => single(
                Action::Send { frame: tcp_listen_result_frame(request_id, server_id, 1, 0, 1) },
            ),
        }
    }

    /// Serves `TCP_STOP_LISTEN`.
    pub fn stop_listen(&mut self, server_id: u32) -> (actions: Vec<Action>)
        ensures
            final(self)@ == old(self)@.stop_listen(server_id).next,
            effects_of(actions@) == old(self)@.stop_listen(server_id).effects,
    {
        if self.authenticated && !self.closed && self.sockets.has_tcp_server(server_id) {
            self.sockets.remove_tcp_server(server_id);
            single(Action::StopListen { server_id })
        } else {
            nothing()
        }
    }

    /// Takes a connection that the listener `server_id` has accepted.
    pub fn accepted(&mut self, server_id: u32, remote_port: u16, remote_addr: &str) -> (actions:
        Vec<Action>)
        ensures
            final(self)@ == old(self)@.accepted(
                server_id,
                remote_port,
                remote_addr.spec_bytes(),
            ).next,
            effects_of(actions@) == old(self)@.accepted(
                server_id,
                remote_port,
                remote_addr.spec_bytes(),
            ).effects,
    {
        if self.closed || !self.sockets.has_tcp_server(server_id) {
            return nothing();
        }
        let was_pending = self.sockets.has_pending_connect(self.sockets.next_socket_id());
        match self.sockets.accept() {
            Some(socket_id) => {
                let mut actions: Vec<Action> = Vec::new();
                if was_pending {
                    actions.push(Action::CancelConnect { socket_id });
                }
                let ghost first = actions@;
                assert(effects_of(first) =~= old(self)@.overtaken());
                let frame = tcp_accept_frame(server_id, socket_id, remote_port, remote_addr);
                actions.push(Action::Send { frame });
                actions.push(Action::StartTcpIo { socket_id, write_queue: WRITE_QUEUE_CAPACITY });
                assert(effects_of(actions@) =~= effects_of(first) + seq![
                    Effect::Send {
                        frame: tcp_accept(
                            server_id,
                            socket_id,
                            remote_port,
                            remote_addr.spec_bytes(),
                        ),
                    },
                    Effect::StartTcpIo { socket_id, write_queue: WRITE_QUEUE_CAPACITY },
                ]);
                actions
            },
            None => nothing(),
        }
    }

    /// Serves `UDP_BIND`.
    pub fn udp_bind(&mut self, request_id: u32, socket_id: u32, addr: String) -> (actions: Vec<
        Action,
    >)
        ensures
            final(self)@ == old(self)@.udp_bind(request_id, socket_id, addr@).next,
            effects_of(actions@) == old(self)@.udp_bind(request_id, socket_id, addr@).effects,
    {
        if !self.authenticated || self.closed {
            return nothing();
        }
        single(Action::BindUdp { socket_id, request_id, addr, reuse_address: true })
    }

    /// Takes the result of a UDP bind: the bound port, or `None` on failure.
    pub fn udp_bound(&mut self, request_id: u32, socket_id: u32, bound: Option<u16>) -> (actions:
        Vec<Action>)
        ensures
            final(self)@ == old(self)@.udp_bound(request_id, socket_id, bound).next,
            effects_of(actions@) == old(self)@.udp_bound(request_id, socket_id, bound).effects,
    {
        if self.closed {
            return nothing();
        }
        match bound {
            Some(port) => {
                self.sockets.add_udp_socket(socket_id);
                pair(
                    Action::Send { frame: udp_bound_frame(request_id, socket_id, 0, port, 0) },
                    Action::StartUdpRecv { socket_id },
                )
            },
            None => single(
                Action::Send { frame: udp_bound_frame(request_id, socket_id, 1, 0, 1) },
            ),
        }
    }

    /// Serves `UDP_SEND`.
    pub fn udp_send(&mut self, socket_id: u32, addr: String, data: Vec<u8>) -> (actions: Vec<
        Action,
    >)
        ensures
            final(self)@ == old(self)@.udp_send(socket_id, addr@, data@).next,
            effects_of(actions@) == old(self)@.udp_send(socket_id, addr@, data@).effects,
    {
        if self.authenticated && !self.closed && self.sockets.has_udp_socket(socket_id) {
            single(Action::SendUdp { socket_id, addr, data })
        } else {
            nothing()
        }
    }

    /// Serves `UDP_CLOSE`.
    pub fn udp_close(&mut self, socket_id: u32) -> (actions: Vec<Action>)
        ensures
            final(self)@ == old(self)@.udp_close(socket_id).next,
            effects_of(actions@) == old(self)@.udp_close(socket_id).effects,
    {
        if self.authenticated && !self.closed && self.sockets.has_udp_socket(socket_id) {
            self.sockets.remove_udp_socket(socket_id);
            single(Action::CloseUdp { socket_id })
        } else {
            nothing()
        }
    }

    /// Serves `UDP_JOIN_MULTICAST`.
    pub fn join_multicast(&mut self, socket_id: u32, group: String) -> (actions: Vec<Action>)
        ensures
            final(self)@ == old(self)@.join_multicast(socket_id, group@).next,
            effects_of(actions@) == old(self)@.join_multicast(socket_id, group@).effects,
    {
        if self.authenticated && !self.closed && self.sockets.has_udp_socket(socket_id) {
            single(Action::JoinMulticast { socket_id, group })
        } else {
            nothing()
        }
    }

    /// Serves `UDP_LEAVE_MULTICAST`.
    pub fn leave_multicast(&mut self, socket_id: u32, group: String) -> (actions: Vec<Action>)
        ensures
            final(self)@ == old(self)@.leave_multicast(socket_id, group@).next,
            effects_of(actions@) == old(self)@.leave_multicast(socket_id, group@).effects,
    {
        if self.authenticated && !self.closed && self.sockets.has_udp_socket(socket_id) {
            single(Action::LeaveMulticast { socket_id, group })
        } else {
            nothing()
        }
    }

    fn before_auth(&mut self, env: Envelope, payload: &[u8], token: &str) -> (actions: Vec<Action>)
        ensures
            final(self)@ == old(self)@.before_auth(env, payload@, token@).next,
            effects_of(actions@) == old(self)@.before_auth(env, payload@, token@).effects,
    {
        if env.msg_type == OP_CLIENT_HELLO {
            self.hello(env.request_id)
        } else if env.msg_type == OP_AUTH {
            if payload.len() == 0 {
                return self.protocol_error(env.request_id, "Empty auth payload");
            }
            let auth_type = payload[0];
            let data = slice_subrange(payload, 1, payload.len());
            assert(data@ =~= payload@.skip(1));
            if auth_type == 0 {
                let end = find_token_end(data);
                let field = slice_subrange(data, 0, end);
                assert(field@ =~= data@.take(end as int));
                let candidate = lossy_string(field);
                self.authenticate(env.request_id, candidate.as_str(), token)
            } else if auth_type == 1 {
                let candidate = lossy_string(data);
                self.authenticate(env.request_id, candidate.as_str(), token)
            } else {
                self.protocol_error(env.request_id, "Unknown auth type")
            }
        } else {
            self.protocol_error(env.request_id, "Authentication required")
        }
    }

    fn request(&mut self, env: Envelope, payload: &[u8]) -> (actions: Vec<Action>)
        ensures
            final(self)@ == old(self)@.request(env, payload@).next,
            effects_of(actions@) == old(self)@.request(env, payload@).effects,
    {
        let op = env.msg_type;
        let len = payload.len();
        if op == OP_TCP_CONNECT {
            if len < 6 {
                return nothing();
            }
            let socket_id = read_u32(payload, 0);
            let port = read_u16(payload, 4);
            let rest = slice_subrange(payload, 6, len);
            assert(rest@ =~= payload@.skip(6));
            let host = lossy_string(rest);
            self.connect(env.request_id, socket_id, format_host_port(host.as_str(), port))
        } else if op == OP_TCP_SEND {
            if len < 4 {
                return nothing();
            }
            let socket_id = read_u32(payload, 0);
            let rest = slice_subrange(payload, 4, len);
            assert(rest@ =~= payload@.skip(4));
            self.send(socket_id, slice_to_vec(rest))
        } else if op == OP_TCP_CLOSE {
            if len < 4 {
                return nothing();
            }
            self.close(read_u32(payload, 0))
        } else if op == OP_TCP_LISTEN {
            if len < 6 {
                return nothing();
            }
            let server_id = read_u32(payload, 0);
            let port = read_u16(payload, 4);
            let rest = slice_subrange(payload, 6, len);
            assert(rest@ =~= payload@.skip(6));
            let host = lossy_string(rest);
            self.listen(env.request_id, server_id, format_bind_address(host.as_str(), port))
        } else if op == OP_TCP_STOP_LISTEN {
            if len < 4 {
                return nothing();
            }
            self.stop_listen(read_u32(payload, 0))
        } else if op == OP_UDP_BIND {
            if len < 6 {
                return nothing();
            }
            let socket_id = read_u32(payload, 0);
            let port = read_u16(payload, 4);
            let rest = slice_subrange(payload, 6, len);
            assert(rest@ =~= payload@.skip(6));
            let host = lossy_string(rest);
            self.udp_bind(env.request_id, socket_id, format_bind_address(host.as_str(), port))
        } else if op == OP_UDP_SEND {
            if len < 8 {
                return nothing();
            }
            let socket_id = read_u32(payload, 0);
            let port = read_u16(payload, 4);
            let addr_len = read_u16(payload, 6) as usize;
            if len - 8 < addr_len {
                return nothing();
            }
            let end: usize = 8 + addr_len;
            let host = lossy_string(slice_subrange(payload, 8, end));
            let rest = slice_subrange(payload, end, len);
            assert(rest@ =~= payload@.skip(end as int));
            self.udp_send(socket_id, format_host_port(host.as_str(), port), slice_to_vec(rest))
        } else if op == OP_UDP_CLOSE {
            if len < 4 {
                return nothing();
            }
            self.udp_close(read_u32(payload, 0))
        } else if op == OP_UDP_JOIN_MULTICAST {
            if len < 4 {
                return nothing();
            }
            let socket_id = read_u32(payload, 0);
            let rest = slice_subrange(payload, 4, len);
            assert(rest@ =~= payload@.skip(4));
            self.join_multicast(socket_id, lossy_string(rest))
        } else if op == OP_UDP_LEAVE_MULTICAST {
            if len < 4 {
                return nothing();
            }
            let socket_id = read_u32(payload, 0);
            let rest = slice_subrange(payload, 4, len);
            assert(rest@ =~= payload@.skip(4));
            self.leave_multicast(socket_id, lossy_string(rest))
        } else {
            self.protocol_error(env.request_id, "Unknown opcode")
        }
    }

    /// Takes one binary frame from the client. `token` is the process token.
    pub fn on_frame(&mut self, data: &[u8], token: &str) -> (actions: Vec<Action>)
        ensures
            final(self)@ == old(self)@.frame(data@, token@).next,
            effects_of(actions@) == old(self)@.frame(data@, token@).effects,
    {
        if self.closed {
            return nothing();
        }
        match Envelope::from_bytes(data) {
            None => nothing(),
            Some(env) => {
                if env.version != PROTOCOL_VERSION {
                    return self.protocol_error(env.request_id, "Invalid protocol version");
                }
                let payload = slice_subrange(data, 8, data.len());
                assert(payload@ =~= data@.skip(8));
                if !self.authenticated {
                    self.before_auth(env, payload, token)
                } else {
                    self.request(env, payload)
                }
            },
        }
    }
}

/// The four kinds of work that end with a session.
#[derive(Clone, Copy, Debug, PartialEq, Eq, Structural)]
pub enum TeardownKind {
    Listener,
    PendingConnect,
    TcpSocket,
    UdpSocket,
}

/// What ending the work of kind `kind` for `id` asks of the caller.
pub open spec fn teardown_effect(kind: TeardownKind, id: u32) -> Effect {
    match kind {
        TeardownKind::Listener => Effect::StopListen { server_id: id },
        TeardownKind::PendingConnect => Effect::CancelConnect { socket_id: id },
        TeardownKind::TcpSocket => Effect::CloseTcp { socket_id: id },
        TeardownKind::UdpSocket => Effect::CloseUdp { socket_id: id },
    }
}

/// One teardown effect of kind `kind` for each id of `ids`, in order.
pub open spec fn teardown_effects(kind: TeardownKind, ids: Seq<u32>) -> Seq<Effect> {
    ids.map_values(|id: u32| teardown_effect(kind, id))
}

fn push_teardown(actions: &mut Vec<Action>, kind: TeardownKind, ids: &Vec<u32>)
    ensures
        effects_of(final(actions)@) == effects_of(old(actions)@) + teardown_effects(kind, ids@),
{
    let mut i: usize = 0;
    assert(effects_of(actions@) =~= effects_of(old(actions)@) + teardown_effects(
        kind,
        ids@.take(0),
    ));
    while i < ids.len()
        invariant
            i <= ids@.len(),
            effects_of(actions@) == effects_of(old(actions)@) + teardown_effects(
                kind,
                ids@.take(i as int),
            ),
        decreases ids@.len() - i,
    {
        let id = ids[i];
        let ghost before = actions@;
        let action = match kind {
            TeardownKind::Listener => Action::StopListen { server_id: id },
            TeardownKind::PendingConnect => Action::CancelConnect { socket_id: id },
            TeardownKind::TcpSocket => Action::CloseTcp { socket_id: id },
            TeardownKind::UdpSocket => Action::CloseUdp { socket_id: id },
        };
        actions.push(action);
        assert(effects_of(actions@) =~= effects_of(before).push(teardown_effect(kind, id)));
        assert(ids@.take(i + 1) =~= ids@.take(i as int).push(id));
        assert(teardown_effects(kind, ids@.take(i + 1)) =~= teardown_effects(
            kind,
            ids@.take(i as int),
        ).push(teardown_effect(kind, id)));
        i += 1;
    }
    assert(ids@.take(ids@.len() as int) =~= ids@);
}

/// Everything that was live when a session ended.
#[derive(Clone, Debug, PartialEq, Eq)]
pub struct Teardown {
    pub listeners: Vec<u32>,
    pub connects: Vec<u32>,
    pub tcp_sockets: Vec<u32>,
    pub udp_sockets: Vec<u32>,
}

impl Teardown {
    /// The order of teardown: accept loops and pending connects are aborted
    /// first, which releases their ports and descriptors; then established
    /// TCP sockets and UDP sockets are dropped; the task that writes to the
    /// client is aborted last.
    pub open spec fn effects(&self) -> Seq<Effect> {
        teardown_effects(TeardownKind::Listener, self.listeners@) + teardown_effects(
            TeardownKind::PendingConnect,
            self.connects@,
        ) + teardown_effects(TeardownKind::TcpSocket, self.tcp_sockets@) + teardown_effects(
            TeardownKind::UdpSocket,
            self.udp_sockets@,
        ) + seq![Effect::StopSender]
    }

    /// The teardown as a list of actions, in the order of [`Teardown::effects`].
    pub fn actions(&self) -> (actions: Vec<Action>)
        ensures
            effects_of(actions@) == self.effects(),
    {
        let mut actions = nothing();
        push_teardown(&mut actions, TeardownKind::Listener, &self.listeners);
        push_teardown(&mut actions, TeardownKind::PendingConnect, &self.connects);
        push_teardown(&mut actions, TeardownKind::TcpSocket, &self.tcp_sockets);
        push_teardown(&mut actions, TeardownKind::UdpSocket, &self.udp_sockets);
        let ghost before = actions@;
        actions.push(Action::StopSender);
        assert(effects_of(actions@) =~= effects_of(before).push(Effect::StopSender));
        assert(effects_of(actions@) =~= self.effects());
        actions
    }
}

impl SessionState {
    /// The session after its transport has gone: closed, with every table
    /// empty.
    pub open spec fn disconnected(self) -> SessionState {
        SessionState { closed: true, sockets: self.sockets.cleared(), ..self }
    }
}

impl Session {
    /// Ends the session. The result lists every listener, pending connect,
    /// TCP socket and UDP socket that was live, each once; afterwards the
    /// session is closed and holds no ids.
    pub fn disconnect(&mut self) -> (t: Teardown)
        ensures
            final(self)@ == old(self)@.disconnected(),
            t.listeners@.no_duplicates(),
            t.listeners@.to_set() == old(self)@.sockets.tcp_servers,
            t.connects@.no_duplicates(),
            t.connects@.to_set() == old(self)@.sockets.pending_connects,
            t.tcp_sockets@.no_duplicates(),
            t.tcp_sockets@.to_set() == old(self)@.sockets.tcp_sockets,
            t.udp_sockets@.no_duplicates(),
            t.udp_sockets@.to_set() == old(self)@.sockets.udp_sockets,
    {
        let t = Teardown {
            listeners: self.sockets.tcp_server_ids(),
            connects: self.sockets.pending_connect_ids(),
            tcp_sockets: self.sockets.tcp_socket_ids(),
            udp_sockets: self.sockets.udp_socket_ids(),
        };
        self.sockets.clear();
        self.closed = true;
        t
    }
}

/// Once a session has ended, no input produces an action or changes it:
/// no frame is emitted for any of its socket ids.
pub proof fn lemma_ended_session_is_silent(
    s: SessionState,
    data: Seq<u8>,
    token: Seq<char>,
    request_id: u32,
    id: u32,
    ok: bool,
    bound: Option<u16>,
    port: u16,
    addr: Seq<u8>,
)
    requires
        s.closed,
    ensures
        s.frame(data, token) == s.stay(),
        s.connect_result(request_id, id, ok) == s.stay(),
        s.listen_result(request_id, id, bound) == s.stay(),
        s.accepted(id, port, addr) == s.stay(),
        s.udp_bound(request_id, id, bound) == s.stay(),
        s.disconnected().closed,
        s.disconnected().sockets == s.sockets.cleared(),
{
}

/// Before authentication nothing but `CLIENT_HELLO` and `AUTH` is served:
/// every other opcode ends the session with `Authentication required`, and
/// no frame changes the socket tables.
pub proof fn lemma_unauthenticated_serves_no_sockets(
    s: SessionState,
    data: Seq<u8>,
    token: Seq<char>,
)
    requires
        !s.authenticated,
    ensures
        s.frame(data, token).next.sockets == s.sockets,
        !s.closed && data.len() >= 8 && Envelope::decode(data).version == PROTOCOL_VERSION
            && Envelope::decode(data).msg_type != OP_CLIENT_HELLO && Envelope::decode(
            data,
        ).msg_type != OP_AUTH ==> s.frame(data, token) == s.refuse(
            error_frame(
                Envelope::decode(data).request_id,
                vstd::utf8::encode_utf8("Authentication required"@),
            ),
        ),
{
}

/// A session becomes authenticated only by an `AUTH` frame whose token is
/// the process token.
pub proof fn lemma_authenticated_only_by_token(
    s: SessionState,
    request_id: u32,
    candidate: Seq<char>,
    token: Seq<char>,
)
    requires
        !s.authenticated,
        !s.closed,
    ensures
        s.authenticate(request_id, candidate, token).next.authenticated <==> candidate == token,
        candidate != token ==> s.authenticate(request_id, candidate, token).next.closed,
{
}

/// No id is at once a pending connect and an established socket.
pub open spec fn ids_apart(s: SessionState) -> bool {
    s.sockets.pending_apart()
}

/// No id is at once a pending connect and an established socket: the
/// separation holds at the start of a session and is kept by every frame,
/// whatever ids the client chooses, and by every result reported back.
pub proof fn lemma_ids_stay_apart(
    s: SessionState,
    data: Seq<u8>,
    token: Seq<char>,
    request_id: u32,
    id: u32,
    ok: bool,
    bound: Option<u16>,
    port: u16,
    addr: Seq<u8>,
)
    requires
        ids_apart(s),
    ensures
        ids_apart(SessionState::initial()),
        ids_apart(s.frame(data, token).next),
        ids_apart(s.connect_result(request_id, id, ok).next),
        ids_apart(s.listen_result(request_id, id, bound).next),
        ids_apart(s.accepted(id, port, addr).next),
        ids_apart(s.udp_bound(request_id, id, bound).next),
        ids_apart(s.disconnected()),
{
    assert(ids_apart(s.connect_result(request_id, id, ok).next));
    assert(ids_apart(s.accepted(id, port, addr).next));
    assert(ids_apart(s.frame(data, token).next));
}

/// A successful connect moves its id from the pending table to the
/// established table in one step; a failed one only removes it.
pub proof fn lemma_connect_result_moves(s: SessionState, request_id: u32, id: u32, ok: bool)
    requires
        !s.closed,
        s.sockets.pending_connects.contains(id),
    ensures
        !s.connect_result(request_id, id, ok).next.sockets.pending_connects.contains(id),
        ok ==> s.connect_result(request_id, id, ok).next.sockets.tcp_sockets.contains(id),
        !ok ==> s.connect_result(request_id, id, ok).next.sockets.tcp_sockets
            == s.sockets.tcp_sockets,
{
}

/// A cancelled connect stays silent: after `TCP_CLOSE` for a pending id, a
/// late result of that connect emits no frame.
pub proof fn lemma_cancelled_connect_is_silent(
    s: SessionState,
    id: u32,
    request_id: u32,
    ok: bool,
)
    requires
        s.active(),
    ensures
        s.sockets.pending_connects.contains(id) ==> s.close(id).effects.contains(
            Effect::CancelConnect { socket_id: id },
        ),
        !s.close(id).next.sockets.pending_connects.contains(id),
        s.close(id).next.connect_result(request_id, id, ok) == s.close(id).next.stay(),
{
    if s.sockets.pending_connects.contains(id) {
        let e = s.close(id).effects;
        assert(e[e.len() - 1] == Effect::CancelConnect { socket_id: id });
    }
}

/// Every accepted connection is announced by exactly one `TCP_ACCEPT`, and
/// the announcement comes before the connection's I/O starts, hence before
/// any `TCP_RECV` or `TCP_CLOSE` for its id. The id is the counter's value,
/// and the counter then moves on, so no two connections share an id.
pub proof fn lemma_accept_announced_once(
    s: SessionState,
    server_id: u32,
    port: u16,
    addr: Seq<u8>,
)
    ensures
        ({
            let step = s.accepted(server_id, port, addr);
            let n = step.effects.len();
            ||| step == s.stay()
            ||| {
                &&& step.effects == s.overtaken() + seq![step.effects[n - 2], step.effects[n - 1]]
                &&& step.effects[n - 2] == Effect::Send {
                    frame: tcp_accept(server_id, s.sockets.next_socket_id, port, addr),
                }
                &&& step.effects[n - 1] == Effect::StartTcpIo {
                    socket_id: s.sockets.next_socket_id,
                    write_queue: WRITE_QUEUE_CAPACITY,
                }
                &&& forall|i: int|
                    0 <= i < n - 2 ==> #[trigger] step.effects[i] == Effect::CancelConnect {
                        socket_id: s.sockets.next_socket_id,
                    }
                &&& step.next.sockets.next_socket_id == s.sockets.next_socket_id + 1
                &&& step.next.sockets.tcp_sockets.contains(s.sockets.next_socket_id)
                &&& !step.next.sockets.pending_connects.contains(s.sockets.next_socket_id)
            }
        }),
{
    let step = s.accepted(server_id, port, addr);
    if step != s.stay() {
        let n = step.effects.len();
        assert(step.effects =~= s.overtaken() + seq![step.effects[n - 2], step.effects[n - 1]]);
    }
}

/// The counter of accepted ids never goes back, whatever happens: an id
/// once given to an accepted connection is not given again in the session.
pub proof fn lemma_counter_only_grows(
    s: SessionState,
    data: Seq<u8>,
    token: Seq<char>,
    request_id: u32,
    id: u32,
    ok: bool,
    bound: Option<u16>,
    port: u16,
    addr: Seq<u8>,
)
    ensures
        s.frame(data, token).next.sockets.next_socket_id == s.sockets.next_socket_id,
        s.connect_result(request_id, id, ok).next.sockets.next_socket_id
            == s.sockets.next_socket_id,
        s.listen_result(request_id, id, bound).next.sockets.next_socket_id
            == s.sockets.next_socket_id,
        s.udp_bound(request_id, id, bound).next.sockets.next_socket_id == s.sockets.next_socket_id,
        s.accepted(id, port, addr).next.sockets.next_socket_id >= s.sockets.next_socket_id,
        s.disconnected().sockets.next_socket_id == s.sockets.next_socket_id,
{
}

} // verus!
