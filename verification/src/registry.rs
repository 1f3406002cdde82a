//! The per-session table of live socket ids.
//!
//! Four tables, each a set of 32-bit ids: established TCP sockets, pending
//! TCP connects, TCP listeners and UDP sockets. Ids of requested sockets are
//! chosen by the client; ids of accepted TCP connections are drawn from a
//! counter that starts at `0x10000`.

use std::collections::HashSet;
use vstd::prelude::*;
use vstd::std_specs::iter::IteratorSpec;

verus! {

broadcast use vstd::std_specs::hash::group_hash_axioms;

/// First id handed to an accepted TCP connection.
pub const FIRST_ACCEPTED_ID: u32 = 0x10000;

/// What a registry holds, as mathematical sets.
pub struct RegistryView {
    pub tcp_sockets: Set<u32>,
    pub pending_connects: Set<u32>,
    pub udp_sockets: Set<u32>,
    pub tcp_servers: Set<u32>,
    pub next_socket_id: u32,
}

impl RegistryView {
    /// The registry of a fresh session.
    pub open spec fn empty() -> RegistryView {
        RegistryView {
            tcp_sockets: Set::empty(),
            pending_connects: Set::empty(),
            udp_sockets: Set::empty(),
            tcp_servers: Set::empty(),
            next_socket_id: FIRST_ACCEPTED_ID,
        }
    }

    /// The same counter with all four tables empty.
    pub open spec fn cleared(self) -> RegistryView {
        RegistryView { next_socket_id: self.next_socket_id, ..RegistryView::empty() }
    }

    /// No id is at once a pending connect and an established socket.
    pub open spec fn pending_apart(self) -> bool {
        self.pending_connects.disjoint(self.tcp_sockets)
    }

    /// The counter has never gone below its start.
    pub open spec fn counter_ok(self) -> bool {
        self.next_socket_id >= FIRST_ACCEPTED_ID
    }

    /// A connect for `id` has been started: the id is pending, and names
    /// no established socket any more.
    pub open spec fn begin_connect(self, id: u32) -> RegistryView {
        RegistryView {
            pending_connects: self.pending_connects.insert(id),
            tcp_sockets: self.tcp_sockets.remove(id),
            ..self
        }
    }

    /// The connect for `id` has ended, with success if `ok`. A result for an
    /// id that is not pending changes nothing.
    pub open spec fn finish_connect(self, id: u32, ok: bool) -> RegistryView {
        if !self.pending_connects.contains(id) {
            self
        } else if ok {
            RegistryView {
                pending_connects: self.pending_connects.remove(id),
                tcp_sockets: self.tcp_sockets.insert(id),
                ..self
            }
        } else {
            RegistryView { pending_connects: self.pending_connects.remove(id), ..self }
        }
    }

    /// `id` is neither established nor pending any more.
    pub open spec fn close_tcp(self, id: u32) -> RegistryView {
        RegistryView {
            tcp_sockets: self.tcp_sockets.remove(id),
            pending_connects: self.pending_connects.remove(id),
            ..self
        }
    }

    /// Whether the counter can still hand out an id.
    pub open spec fn can_accept(self) -> bool {
        self.next_socket_id < u32::MAX
    }

    /// An accepted connection has taken the next id of the counter: the id
    /// names an established socket, and no pending connect any more.
    pub open spec fn accept(self) -> RegistryView
        recommends
            self.can_accept(),
    {
        RegistryView {
            tcp_sockets: self.tcp_sockets.insert(self.next_socket_id),
            pending_connects: self.pending_connects.remove(self.next_socket_id),
            next_socket_id: (self.next_socket_id + 1) as u32,
            ..self
        }
    }
}

/// No id is at once a pending connect and an established socket: the two
/// tables are apart in an empty registry, and every change keeps them so.
pub proof fn lemma_tables_stay_apart(r: RegistryView, id: u32, ok: bool)
    requires
        r.pending_apart(),
    ensures
        RegistryView::empty().pending_apart(),
        r.begin_connect(id).pending_apart(),
        r.finish_connect(id, ok).pending_apart(),
        r.close_tcp(id).pending_apart(),
        r.accept().pending_apart(),
        r.cleared().pending_apart(),
{
}

/// The live socket ids of one session.
pub struct SocketRegistry {
    tcp_sockets: HashSet<u32>,
    pending_connects: HashSet<u32>,
    udp_sockets: HashSet<u32>,
    tcp_servers: HashSet<u32>,
    next_socket_id: u32,
}

impl View for SocketRegistry {
    type V = RegistryView;

    closed spec fn view(&self) -> RegistryView {
        RegistryView {
            tcp_sockets: self.tcp_sockets@,
            pending_connects: self.pending_connects@,
            udp_sockets: self.udp_sockets@,
            tcp_servers: self.tcp_servers@,
            next_socket_id: self.next_socket_id,
        }
    }
}

/// The ids of `set` in some order, each once.
fn ids_of(set: &HashSet<u32>) -> (ids: Vec<u32>)
    ensures
        ids@.no_duplicates(),
        ids@.to_set() == set@,
{
    let mut ids: Vec<u32> = Vec::new();
    let ghost all: Seq<&u32> = set.iter().remaining();
    let ghost mut done: int = 0;
    for id in it: set.iter()
        invariant
            it.seq() == all,
            done == it.index(),
            ids@ == all.unref().take(done),
    {
        ids.push(*id);
        proof {
            assert(all.unref().take(done + 1) =~= all.unref().take(done).push(*id));
            done = done + 1;
        }
    }
    assert(ids@ =~= all.unref());
    assert(all.unref().no_duplicates()) by {
        assert forall|i: int, j: int|
            0 <= i < all.unref().len() && 0 <= j < all.unref().len() && i != j implies all.unref()[i]
            != all.unref()[j] by {
            assert(all[i] != all[j]);
        }
    }
    ids
}

impl SocketRegistry {
    /// An empty registry whose counter stands at `0x10000`.
    pub fn new() -> (r: SocketRegistry)
        ensures
            r@ == RegistryView::empty(),
    {
        SocketRegistry {
            tcp_sockets: HashSet::new(),
            pending_connects: HashSet::new(),
            udp_sockets: HashSet::new(),
            tcp_servers: HashSet::new(),
            next_socket_id: FIRST_ACCEPTED_ID,
        }
    }

    /// Whether `id` names an established TCP socket.
    pub fn has_tcp_socket(&self, id: u32) -> (b: bool)
        ensures
            b == self@.tcp_sockets.contains(id),
    {
        self.tcp_sockets.contains(&id)
    }

    /// Whether a connect for `id` is pending.
    pub fn has_pending_connect(&self, id: u32) -> (b: bool)
        ensures
            b == self@.pending_connects.contains(id),
    {
        self.pending_connects.contains(&id)
    }

    /// Whether `id` names a UDP socket.
    pub fn has_udp_socket(&self, id: u32) -> (b: bool)
        ensures
            b == self@.udp_sockets.contains(id),
    {
        self.udp_sockets.contains(&id)
    }

    /// Whether `id` names a TCP listener.
    pub fn has_tcp_server(&self, id: u32) -> (b: bool)
        ensures
            b == self@.tcp_servers.contains(id),
    {
        self.tcp_servers.contains(&id)
    }

    /// The id the next accepted connection will get.
    pub fn next_socket_id(&self) -> (id: u32)
        ensures
            id == self@.next_socket_id,
    {
        self.next_socket_id
    }

    /// Records that a connect for `id` has been started, and says whether
    /// the id named an established socket, which it then no longer does.
    pub fn begin_connect(&mut self, id: u32) -> (was_established: bool)
        ensures
            was_established == old(self)@.tcp_sockets.contains(id),
            final(self)@ == old(self)@.begin_connect(id),
    {
        self.pending_connects.insert(id);
        self.tcp_sockets.remove(&id)
    }

    /// Records the end of the connect for `id`. Returns whether the id was
    /// pending; if it was not, nothing changes.
    pub fn finish_connect(&mut self, id: u32, ok: bool) -> (was_pending: bool)
        ensures
            was_pending == old(self)@.pending_connects.contains(id),
            final(self)@ == old(self)@.finish_connect(id, ok),
    {
        if !self.pending_connects.remove(&id) {
            assert(self.pending_connects@ =~= old(self).pending_connects@);
            return false;
        }
        if ok {
            self.tcp_sockets.insert(id);
        }
        true
    }

    /// Forgets `id` as an established socket and as a pending connect, and
    /// says which of the two it was.
    pub fn close_tcp(&mut self, id: u32) -> (was: (bool, bool))
        ensures
            was.0 == old(self)@.tcp_sockets.contains(id),
            was.1 == old(self)@.pending_connects.contains(id),
            final(self)@ == old(self)@.close_tcp(id),
    {
        let established = self.tcp_sockets.remove(&id);
        let pending = self.pending_connects.remove(&id);
        (established, pending)
    }

    /// Registers an accepted connection under the next id of the counter.
    /// `None`, with nothing changed, once the counter has reached its end.
    pub fn accept(&mut self) -> (id: Option<u32>)
        ensures
            old(self)@.can_accept() ==> id == Some(old(self)@.next_socket_id) && final(self)@ == old(
                self,
            )@.accept(),
            !old(self)@.can_accept() ==> id is None && final(self)@ == old(self)@,
    {
        if self.next_socket_id == u32::MAX {
            return None;
        }
        let id = self.next_socket_id;
        self.next_socket_id = id + 1;
        self.tcp_sockets.insert(id);
        self.pending_connects.remove(&id);
        Some(id)
    }

    /// Registers the listener `id`.
    pub fn add_tcp_server(&mut self, id: u32)
        ensures
            final(self)@ == (RegistryView {
                tcp_servers: old(self)@.tcp_servers.insert(id),
                ..old(self)@
            }),
    {
        self.tcp_servers.insert(id);
    }

    /// Forgets the listener `id`; returns whether it was registered.
    pub fn remove_tcp_server(&mut self, id: u32) -> (was: bool)
        ensures
            was == old(self)@.tcp_servers.contains(id),
            final(self)@ == (RegistryView {
                tcp_servers: old(self)@.tcp_servers.remove(id),
                ..old(self)@
            }),
    {
        self.tcp_servers.remove(&id)
    }

    /// Registers the UDP socket `id`.
    pub fn add_udp_socket(&mut self, id: u32)
        ensures
            final(self)@ == (RegistryView {
                udp_sockets: old(self)@.udp_sockets.insert(id),
                ..old(self)@
            }),
    {
        self.udp_sockets.insert(id);
    }

    /// Forgets the UDP socket `id`; returns whether it was registered.
    pub fn remove_udp_socket(&mut self, id: u32) -> (was: bool)
        ensures
            was == old(self)@.udp_sockets.contains(id),
            final(self)@ == (RegistryView {
                udp_sockets: old(self)@.udp_sockets.remove(id),
                ..old(self)@
            }),
    {
        self.udp_sockets.remove(&id)
    }

    /// The ids of all listeners, each once, in no particular order.
    pub fn tcp_server_ids(&self) -> (ids: Vec<u32>)
        ensures
            ids@.no_duplicates(),
            ids@.to_set() == self@.tcp_servers,
    {
        ids_of(&self.tcp_servers)
    }

    /// The ids of all pending connects, each once, in no particular order.
    pub fn pending_connect_ids(&self) -> (ids: Vec<u32>)
        ensures
            ids@.no_duplicates(),
            ids@.to_set() == self@.pending_connects,
    {
        ids_of(&self.pending_connects)
    }

    /// The ids of all established TCP sockets, each once, in no particular
    /// order.
    pub fn tcp_socket_ids(&self) -> (ids: Vec<u32>)
        ensures
            ids@.no_duplicates(),
            ids@.to_set() == self@.tcp_sockets,
    {
        ids_of(&self.tcp_sockets)
    }

    /// The ids of all UDP sockets, each once, in no particular order.
    pub fn udp_socket_ids(&self) -> (ids: Vec<u32>)
        ensures
            ids@.no_duplicates(),
            ids@.to_set() == self@.udp_sockets,
    {
        ids_of(&self.udp_sockets)
    }

    /// Empties all four tables. The counter keeps its value.
    pub fn clear(&mut self)
        ensures
            final(self)@ == old(self)@.cleared(),
    {
        self.tcp_sockets.clear();
        self.pending_connects.clear();
        self.udp_sockets.clear();
        self.tcp_servers.clear();
    }
}

} // verus!
