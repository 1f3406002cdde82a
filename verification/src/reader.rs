//! The rules of the per-socket receive loops.
//!
//! A loop hands each result of a read to its reader and sends what the
//! reader returns. The reader decides which frame, if any, a result
//! produces, and when the loop is over.

use crate::frames::{
    tcp_close, tcp_close_frame, tcp_recv, tcp_recv_frame, udp_close, udp_close_frame, udp_recv,
    udp_recv_frame,
};
use vstd::prelude::*;
use vstd::string::StringSliceAdditionalSpecFns;

verus! {

/// Most bytes one read of a TCP socket asks for.
pub const TCP_READ_CHUNK: usize = 8192;

/// Size of the buffer one datagram is received into.
pub const UDP_DATAGRAM_MAX: usize = 65535;

/// The result of one read of a TCP stream.
pub enum ReadEvent {
    /// The read returned these bytes; none at the end of the stream.
    Data(Seq<u8>),
    /// The read failed.
    Failed,
}

/// What a TCP reader asks to be sent.
pub enum Emitted {
    /// `TCP_RECV` with these bytes.
    Recv(Seq<u8>),
    /// `TCP_CLOSE` with this reason and errno.
    Close { reason: u8, errno: u32 },
}

/// One step of a TCP reader: whether it is open afterwards, and what it
/// emits. Bytes are passed on as they are; the end of the stream closes
/// with reason 0, a failed read with reason 1; a closed reader emits
/// nothing.
pub open spec fn tcp_read_step(open: bool, event: ReadEvent) -> (bool, Option<Emitted>) {
    if !open {
        (false, None)
    } else {
        match event {
            ReadEvent::Data(bytes) => if bytes.len() > 0 {
                (true, Some(Emitted::Recv(bytes)))
            } else {
                (false, Some(Emitted::Close { reason: 0, errno: 0 }))
            },
            ReadEvent::Failed => (false, Some(Emitted::Close { reason: 1, errno: 0 })),
        }
    }
}

/// The frame that carries `e` for the socket `socket_id`.
pub open spec fn emitted_frame(socket_id: u32, e: Emitted) -> Seq<u8> {
    match e {
        Emitted::Recv(bytes) => tcp_recv(socket_id, bytes),
        Emitted::Close { reason, errno } => tcp_close(socket_id, reason, errno),
    }
}

/// Everything a reader emits for a sequence of read results.
pub open spec fn tcp_read_trace(open: bool, events: Seq<ReadEvent>) -> Seq<Emitted>
    decreases events.len(),
{
    if events.len() == 0 {
        Seq::empty()
    } else {
        let (still_open, emitted) = tcp_read_step(open, events[0]);
        let head: Seq<Emitted> = match emitted {
            Some(e) => seq![e],
            None => Seq::empty(),
        };
        head + tcp_read_trace(still_open, events.drop_first())
    }
}

/// The bytes read from the stream while the reader was open: those of the
/// results up to the first empty or failed read.
pub open spec fn bytes_read(open: bool, events: Seq<ReadEvent>) -> Seq<u8>
    decreases events.len(),
{
    if events.len() == 0 || !open {
        Seq::empty()
    } else {
        match events[0] {
            ReadEvent::Data(bytes) => if bytes.len() > 0 {
                bytes + bytes_read(true, events.drop_first())
            } else {
                Seq::empty()
            },
            ReadEvent::Failed => Seq::empty(),
        }
    }
}

/// The bytes carried by the `TCP_RECV` frames of a trace, in order.
pub open spec fn bytes_emitted(trace: Seq<Emitted>) -> Seq<u8>
    decreases trace.len(),
{
    if trace.len() == 0 {
        Seq::empty()
    } else {
        let head: Seq<u8> = match trace[0] {
            Emitted::Recv(bytes) => bytes,
            Emitted::Close { .. } => Seq::empty(),
        };
        head + bytes_emitted(trace.drop_first())
    }
}

/// Number of `TCP_CLOSE` frames in a trace.
pub open spec fn closes_emitted(trace: Seq<Emitted>) -> nat
    decreases trace.len(),
{
    if trace.len() == 0 {
        0
    } else {
        let head: nat = match trace[0] {
            Emitted::Recv(_) => 0,
            Emitted::Close { .. } => 1,
        };
        head + closes_emitted(trace.drop_first())
    }
}

proof fn lemma_bytes_emitted_cons(e: Emitted, rest: Seq<Emitted>)
    ensures
        bytes_emitted(seq![e] + rest) == (match e {
            Emitted::Recv(bytes) => bytes,
            Emitted::Close { .. } => Seq::<u8>::empty(),
        }) + bytes_emitted(rest),
        closes_emitted(seq![e] + rest) == (match e {
            Emitted::Recv(_) => 0nat,
            Emitted::Close { .. } => 1nat,
        }) + closes_emitted(rest),
{
    let all = seq![e] + rest;
    assert(all[0] == e);
    assert(all.drop_first() =~= rest);
}

proof fn lemma_closed_reader_is_silent(events: Seq<ReadEvent>)
    ensures
        tcp_read_trace(false, events) == Seq::<Emitted>::empty(),
    decreases events.len(),
{
    if events.len() > 0 {
        lemma_closed_reader_is_silent(events.drop_first());
        assert(tcp_read_trace(false, events) =~= Seq::<Emitted>::empty());
    }
}

/// The bytes in the `TCP_RECV` frames of a socket are exactly the bytes
/// read from its stream, in the order they were read; so are their counts.
pub proof fn lemma_recv_carries_what_was_read(events: Seq<ReadEvent>)
    ensures
        bytes_emitted(tcp_read_trace(true, events)) == bytes_read(true, events),
        bytes_emitted(tcp_read_trace(true, events)).len() == bytes_read(true, events).len(),
    decreases events.len(),
{
    if events.len() > 0 {
        let rest = events.drop_first();
        let (still_open, emitted) = tcp_read_step(true, events[0]);
        let e = emitted->0;
        lemma_bytes_emitted_cons(e, tcp_read_trace(still_open, rest));
        if still_open {
            lemma_recv_carries_what_was_read(rest);
        } else {
            lemma_closed_reader_is_silent(rest);
            assert(bytes_emitted(Seq::<Emitted>::empty()) =~= Seq::<u8>::empty());
        }
        assert(bytes_emitted(tcp_read_trace(true, events)) =~= bytes_read(true, events));
    }
}

/// Whatever is read, at most one `TCP_CLOSE` is emitted for a socket.
pub proof fn lemma_at_most_one_close(open: bool, events: Seq<ReadEvent>)
    ensures
        closes_emitted(tcp_read_trace(open, events)) <= 1,
    decreases events.len(),
{
    if !open {
        lemma_closed_reader_is_silent(events);
    } else if events.len() > 0 {
        let rest = events.drop_first();
        let (still_open, emitted) = tcp_read_step(true, events[0]);
        lemma_bytes_emitted_cons(emitted->0, tcp_read_trace(still_open, rest));
        if still_open {
            lemma_at_most_one_close(true, rest);
        } else {
            lemma_closed_reader_is_silent(rest);
        }
    }
}

/// Bytes of a `TCP_RECV` frame before its data: the envelope and the
/// socket id.
pub const FRAME_OVERHEAD: usize = 12;

/// Whether every read of a sequence returned at most 8 KiB.
pub open spec fn reads_within_chunk(events: Seq<ReadEvent>) -> bool {
    forall|i: int|
        0 <= i < events.len() ==> ((#[trigger] events[i]) matches ReadEvent::Data(bytes)
            ==> bytes.len() <= TCP_READ_CHUNK)
}

/// Whether `e` is a `TCP_RECV` of at least one and at most 8 KiB of data,
/// or a `TCP_CLOSE`.
pub open spec fn emitted_within_chunk(e: Emitted) -> bool {
    e matches Emitted::Recv(bytes) ==> 0 < bytes.len() <= TCP_READ_CHUNK
}

/// A `TCP_RECV` frame is an event: its envelope has the current version,
/// the opcode `TCP_RECV` and request id 0; the socket id follows, and the
/// data is the rest.
pub proof fn lemma_recv_frame_layout(socket_id: u32, data: Seq<u8>)
    ensures
        tcp_recv(socket_id, data).len() == FRAME_OVERHEAD + data.len(),
        crate::envelope::Envelope::decode(tcp_recv(socket_id, data)) == (crate::envelope::Envelope {
            version: crate::envelope::PROTOCOL_VERSION,
            msg_type: crate::envelope::OP_TCP_RECV,
            flags: 0,
            request_id: 0,
        }),
        crate::envelope::u32_at(tcp_recv(socket_id, data), 8) == socket_id,
        tcp_recv(socket_id, data).skip(FRAME_OVERHEAD as int) == data,
{
    let env = crate::envelope::Envelope {
        version: crate::envelope::PROTOCOL_VERSION,
        msg_type: crate::envelope::OP_TCP_RECV,
        flags: 0,
        request_id: 0,
    };
    crate::envelope::lemma_envelope_round_trip(env);
    crate::envelope::lemma_u32_round_trip(socket_id);
    let f = tcp_recv(socket_id, data);
    assert(f.len() == 12 + data.len());
    assert(f.take(8) =~= env.encode());
    assert(crate::envelope::Envelope::decode(f) == crate::envelope::Envelope::decode(env.encode()));
    assert(f.subrange(8, 12) =~= crate::envelope::u32_le(socket_id));
    assert(crate::envelope::u32_at(f, 8) == crate::envelope::u32_at(
        crate::envelope::u32_le(socket_id),
        0,
    ));
    assert(f.skip(12) =~= data);
}

/// Where every read returns at most 8 KiB, every `TCP_RECV` emitted
/// carries at least one and at most 8 KiB of data.
pub proof fn lemma_recv_within_chunk(open: bool, events: Seq<ReadEvent>)
    requires
        reads_within_chunk(events),
    ensures
        forall|i: int|
            0 <= i < tcp_read_trace(open, events).len() ==> emitted_within_chunk(
                #[trigger] tcp_read_trace(open, events)[i],
            ),
    decreases events.len(),
{
    if events.len() > 0 {
        let rest = events.drop_first();
        let (still_open, emitted) = tcp_read_step(open, events[0]);
        assert forall|i: int| 0 <= i < rest.len() implies ((#[trigger] rest[i]) matches ReadEvent::Data(
            bytes,
        ) ==> bytes.len() <= TCP_READ_CHUNK) by {
            assert(rest[i] == events[i + 1]);
        }
        lemma_recv_within_chunk(still_open, rest);
        let tail = tcp_read_trace(still_open, rest);
        let all = tcp_read_trace(open, events);
        assert forall|i: int| 0 <= i < all.len() implies emitted_within_chunk(#[trigger] all[i]) by {
            match emitted {
                Some(e) => {
                    assert(all =~= seq![e] + tail);
                    if i > 0 {
                        assert(all[i] == tail[i - 1]);
                    }
                },
                None => {
                    assert(all =~= tail);
                },
            }
        }
    }
}

/// The receive loop of one established TCP socket.
pub struct TcpReader {
    socket_id: u32,
    open: bool,
}

impl TcpReader {
    /// A reader for a socket whose stream has just been opened.
    pub fn new(socket_id: u32) -> (r: TcpReader)
        ensures
            r.socket_id() == socket_id,
            r.is_open(),
    {
        TcpReader { socket_id, open: true }
    }

    /// The socket this reader serves.
    pub closed spec fn socket_id(&self) -> u32 {
        self.socket_id
    }

    /// Whether the loop goes on.
    pub closed spec fn is_open(&self) -> bool {
        self.open
    }

    /// Whether the loop goes on.
    pub fn open(&self) -> (b: bool)
        ensures
            b == self.is_open(),
    {
        self.open
    }

    /// Takes the bytes one read returned (none at the end of the stream)
    /// and gives the frame to send. A read asks for at most 8 KiB, so it
    /// returns no more, and one frame carries no more.
    pub fn on_read(&mut self, bytes: &[u8]) -> (frame: Option<Vec<u8>>)
        requires
            bytes@.len() <= TCP_READ_CHUNK,
        ensures
            final(self).socket_id() == old(self).socket_id(),
            frame matches Some(f) ==> f@.len() <= FRAME_OVERHEAD + TCP_READ_CHUNK,
            final(self).is_open() == tcp_read_step(
                old(self).is_open(),
                ReadEvent::Data(bytes@),
            ).0,
            match tcp_read_step(old(self).is_open(), ReadEvent::Data(bytes@)).1 {
                Some(e) => frame.is_some() && frame.unwrap()@ == emitted_frame(
                    old(self).socket_id(),
                    e,
                ),
                None => frame.is_none(),
            },
    {
        if !self.open {
            return None;
        }
        if bytes.len() > 0 {
            proof {
                lemma_recv_frame_layout(self.socket_id, bytes@);
            }
            Some(tcp_recv_frame(self.socket_id, bytes))
        } else {
            self.open = false;
            Some(tcp_close_frame(self.socket_id, 0, 0))
        }
    }

    /// Takes the failure of a read and gives the frame to send.
    pub fn on_failure(&mut self) -> (frame: Option<Vec<u8>>)
        ensures
            final(self).socket_id() == old(self).socket_id(),
            !final(self).is_open(),
            match tcp_read_step(old(self).is_open(), ReadEvent::Failed).1 {
                Some(e) => frame.is_some() && frame.unwrap()@ == emitted_frame(
                    old(self).socket_id(),
                    e,
                ),
                None => frame.is_none(),
            },
    {
        if !self.open {
            return None;
        }
        self.open = false;
        Some(tcp_close_frame(self.socket_id, 1, 0))
    }
}

/// What happens to a UDP receiver.
pub enum ReceiveEvent {
    /// A datagram arrived from the peer with this port and address.
    Datagram { peer_port: u16, peer_addr: Seq<u8>, data: Seq<u8> },
    /// A receive failed.
    Failed,
}

/// What a UDP receiver asks to be sent.
pub enum UdpEmitted {
    /// `UDP_RECV` with the datagram and its sender.
    Recv { peer_port: u16, peer_addr: Seq<u8>, data: Seq<u8> },
    /// `UDP_CLOSE`.
    Close,
}

/// One step of a UDP receiver: whether it is open afterwards, and what it
/// emits. Every datagram is passed on; the first failure closes the
/// receiver; a closed receiver emits nothing.
pub open spec fn udp_receive_step(open: bool, event: ReceiveEvent) -> (bool, Option<UdpEmitted>) {
    if !open {
        (false, None)
    } else {
        match event {
            ReceiveEvent::Datagram { peer_port, peer_addr, data } => (
                true,
                Some(UdpEmitted::Recv { peer_port, peer_addr, data }),
            ),
            ReceiveEvent::Failed => (false, Some(UdpEmitted::Close)),
        }
    }
}

/// The frame that carries `e` for the socket `socket_id`.
pub open spec fn udp_emitted_frame(socket_id: u32, e: UdpEmitted) -> Seq<u8> {
    match e {
        UdpEmitted::Recv { peer_port, peer_addr, data } => udp_recv(
            socket_id,
            peer_port,
            peer_addr,
            data,
        ),
        UdpEmitted::Close => udp_close(socket_id),
    }
}

/// Number of `UDP_CLOSE` frames a receiver emits for a sequence of events.
pub open spec fn udp_closes(open: bool, events: Seq<ReceiveEvent>) -> nat
    decreases events.len(),
{
    if events.len() == 0 {
        0
    } else {
        let (still_open, emitted) = udp_receive_step(open, events[0]);
        let head: nat = match emitted {
            Some(UdpEmitted::Close) => 1,
            _ => 0,
        };
        head + udp_closes(still_open, events.drop_first())
    }
}

/// Whatever is received, at most one `UDP_CLOSE` is emitted for a socket.
pub proof fn lemma_at_most_one_udp_close(open: bool, events: Seq<ReceiveEvent>)
    ensures
        udp_closes(open, events) <= 1,
        !open ==> udp_closes(open, events) == 0,
    decreases events.len(),
{
    if events.len() > 0 {
        let (still_open, emitted) = udp_receive_step(open, events[0]);
        lemma_at_most_one_udp_close(still_open, events.drop_first());
    }
}

/// The receive loop of one UDP socket.
pub struct UdpReceiver {
    socket_id: u32,
    open: bool,
}

impl UdpReceiver {
    /// A receiver for a socket that has just been bound.
    pub fn new(socket_id: u32) -> (r: UdpReceiver)
        ensures
            r.socket_id() == socket_id,
            r.is_open(),
    {
        UdpReceiver { socket_id, open: true }
    }

    /// The socket this receiver serves.
    pub closed spec fn socket_id(&self) -> u32 {
        self.socket_id
    }

    /// Whether the loop goes on.
    pub closed spec fn is_open(&self) -> bool {
        self.open
    }

    /// Whether the loop goes on.
    pub fn open(&self) -> (b: bool)
        ensures
            b == self.is_open(),
    {
        self.open
    }

    /// Takes one datagram and gives the `UDP_RECV` frame to send; nothing
    /// once the receiver has closed. The peer address must fit the two-byte
    /// length field.
    pub fn on_datagram(&self, peer_port: u16, peer_addr: &str, data: &[u8]) -> (frame: Option<
        Vec<u8>,
    >)
        requires
            peer_addr.spec_bytes().len() <= u16::MAX,
        ensures
            match udp_receive_step(
                self.is_open(),
                ReceiveEvent::Datagram { peer_port, peer_addr: peer_addr.spec_bytes(), data: data@ },
            ).1 {
                Some(e) => frame.is_some() && frame.unwrap()@ == udp_emitted_frame(
                    self.socket_id(),
                    e,
                ),
                None => frame.is_none(),
            },
    {
        if self.open {
            Some(udp_recv_frame(self.socket_id, peer_port, peer_addr, data))
        } else {
            None
        }
    }

    /// Takes the failure of a receive: the first one closes the receiver
    /// and gives the `UDP_CLOSE` frame; later ones give nothing.
    pub fn on_failure(&mut self) -> (frame: Option<Vec<u8>>)
        ensures
            final(self).socket_id() == old(self).socket_id(),
            final(self).is_open() == udp_receive_step(old(self).is_open(), ReceiveEvent::Failed).0,
            match udp_receive_step(old(self).is_open(), ReceiveEvent::Failed).1 {
                Some(e) => frame.is_some() && frame.unwrap()@ == udp_emitted_frame(
                    old(self).socket_id(),
                    e,
                ),
                None => frame.is_none(),
            },
    {
        if !self.open {
            return None;
        }
        self.open = false;
        Some(udp_close_frame(self.socket_id))
    }
}

} // verus!
