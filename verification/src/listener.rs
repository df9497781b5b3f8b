//! The server's end: which session a datagram belongs to.

use kcp::Kcp;
use vstd::prelude::*;
use vstd::slice::slice_subrange;

use crate::config::KcpConfig;
use crate::engine::{complete, kcp_check, kcp_get_conv, kcp_state, le32, lemma_scan, update_of, KcpState, KCP_OVERHEAD};
use crate::error::KcpError;
use crate::kcp_io::{ended, served, IoView, ServerKcpIo};
use crate::output::{KcpOutput, KcpOutputHandle, PeerAddr};
use crate::session::{expiry, outlasts, SessionView};
use crate::skcp::{lemma_reading, SharedKcp, SocketView};

verus! {

/// What a turn of a session's timer came to.
pub enum Turn {
    /// The session with `peer` has ended, and is forgotten. It is handed out in `io`, and `sender`
    /// says whether somebody waits to send on it, who has to be woken.
    Ended { peer: PeerAddr, io: ServerKcpIo, sender: bool },
    /// The next turn is due in so many milliseconds.
    Sleep(u32),
}

/// Where a datagram went.
#[derive(Debug, Clone, Copy, PartialEq, Eq, Structural)]
pub enum Accepted {
    /// To a session there was. It says whether a read would give a message now.
    Delivered { readable: bool },
    /// To a new session. It says whether a read would give a message now.
    New { readable: bool },
}

/// The sessions of a listener, each with its peer, in the order in which they were accepted.
pub type Sessions = Seq<(PeerAddr, IoView)>;

/// Whether `addr` has a session.
pub open spec fn knows(s: Sessions, addr: PeerAddr) -> bool {
    exists|i: int| 0 <= i < s.len() && #[trigger] s[i].0 == addr
}

/// No two sessions have the same peer.
pub open spec fn peers_differ(s: Sessions) -> bool {
    forall|i: int, j: int| 0 <= i < j < s.len() ==> #[trigger] s[i].0 != #[trigger] s[j].0
}

/// `b` is `a` after the session at `i` took the datagram `d`.
pub open spec fn delivered(a: Sessions, b: Sessions, i: int, d: Seq<u8>, now: u64) -> bool {
    &&& 0 <= i < a.len()
    &&& b == a.update(i, b[i])
    &&& b[i].0 == a[i].0
    &&& b[i].1.unread == a[i].1.unread
    &&& b[i].1.socket == served(a[i].1.socket, d, now)
}

/// `b` is `a` with a new session with `addr`, under the conversation number `conv`, that took the
/// datagram `d`.
pub open spec fn added(
    a: Sessions,
    b: Sessions,
    config: KcpConfig,
    queue: KcpOutputHandle,
    addr: PeerAddr,
    conv: u32,
    d: Seq<u8>,
    now: u64,
) -> bool {
    let output = b.last().1.socket.kcp.output;
    &&& b.len() == a.len() + 1
    &&& b == a.push(b.last())
    &&& b.last().0 == addr
    &&& output.handle() == queue
    &&& output.to() == addr
    &&& b.last().1.unread == Seq::<u8>::empty()
    &&& b.last().1.socket == first_taken(config, conv, output, d, now)
}

/// A new session after it took the datagram `d` that came first. One that refuses it is closed.
pub open spec fn first_taken(config: KcpConfig, conv: u32, output: KcpOutput, d: Seq<u8>, now: u64) -> SocketView {
    let a = SocketView::fresh(config, conv, output, config.stream, now);
    if a.answer(d) is Ok {
        served(a, d, now)
    } else {
        SocketView { is_closed: true, ..served(a, d, now) }
    }
}

/// A session of a listener as one that lives and ends: it is to end once it is closed, and it
/// expires as the settings say.
pub open spec fn session_of(io: IoView, config: KcpConfig) -> SessionView {
    SessionView {
        socket: io.socket,
        closed: io.socket.is_closed,
        expire: expiry(config.session_expire),
        is_client: false,
    }
}

/// `b` is `a` after a turn of its timer that did not end it: one that is overdue is closed, and
/// every one is updated.
pub open spec fn kept(a: IoView, b: IoView, config: KcpConfig, now: u64, current: u32) -> bool {
    &&& b.unread == a.unread
    &&& update_of(a.socket.kcp, b.socket.kcp, current)
    &&& b.socket == (SocketView {
        kcp: b.socket.kcp,
        is_closed: a.socket.is_closed || session_of(a, config).overdue(now, 1),
        ..a.socket
    })
}

/// A KCP Socket server
pub struct KcpListener {
    config: KcpConfig,
    queue: KcpOutputHandle,
    sessions: Vec<(PeerAddr, ServerKcpIo)>,
}

impl KcpListener {
    /// The sessions of this listener.
    pub closed spec fn sessions(&self) -> Sessions {
        self.sessions@.map_values(|p: (PeerAddr, ServerKcpIo)| (p.0, p.1@))
    }

    /// The settings of new sessions.
    pub closed spec fn config(&self) -> KcpConfig {
        self.config
    }

    /// The queue to which the sessions write.
    pub closed spec fn queue(&self) -> KcpOutputHandle {
        self.queue
    }

    /// The settings are valid, and each peer has one sound session.
    pub closed spec fn wf(&self) -> bool {
        &&& self.config.valid()
        &&& peers_differ(self.sessions())
        &&& forall|i: int| 0 <= i < self.sessions@.len() ==> (#[trigger] self.sessions@[i]).1.wf()
    }

    /// What holds of a sound listener.
    pub(crate) proof fn lemma_wf(&self)
        requires
            self.wf(),
        ensures
            self.config().valid(),
            forall|i: int, j: int|
                0 <= i < j < self.sessions().len() ==> (#[trigger] self.sessions()[i]).0 != (
                #[trigger] self.sessions()[j]).0,
            forall|i: int| 0 <= i < self.sessions().len() ==> (#[trigger] self.sessions()[i]).1.socket.kcp.wf(),
    {
        assert forall|i: int| 0 <= i < self.sessions().len() implies (#[trigger] self.sessions()[i]).1.socket.kcp.wf() by {
            assert(self.sessions@[i].1.wf());
            self.sessions@[i].1.lemma_wf();
        }
    }

    /// A listener without sessions.
    pub fn new(config: KcpConfig, queue: KcpOutputHandle) -> (res: KcpListener)
        requires
            config.valid(),
        ensures
            res.wf(),
            res.sessions() == Sessions::empty(),
            res.config() == config,
            res.queue() == queue,
    {
        let res = KcpListener { config, queue, sessions: Vec::new() };
        assert(res.sessions() =~= Sessions::empty());
        res
    }

    /// The place of the session with `addr`, if there is one.
    pub fn find(&self, addr: PeerAddr) -> (res: Option<usize>)
        requires
            self.wf(),
        ensures
            match res {
                Some(i) => i < self.sessions().len() && self.sessions()[i as int].0 == addr,
                None => !knows(self.sessions(), addr),
            },
    {
        let mut i: usize = 0;
        while i < self.sessions.len()
            invariant
                i <= self.sessions@.len(),
                forall|j: int| 0 <= j < i ==> (#[trigger] self.sessions()[j]).0 != addr,
            decreases self.sessions@.len() - i,
        {
            if self.sessions[i].0 == addr {
                return Some(i);
            }
            i += 1;
        }
        None
    }

    /// Gives a datagram to the session at `i`.
    fn deliver(&mut self, i: usize, datagram: &[u8], now: u64) -> (res: Result<bool, KcpError>)
        requires
            old(self).wf(),
            i < old(self).sessions().len(),
        ensures
            final(self).wf(),
            final(self).config() == old(self).config(),
            final(self).queue() == old(self).queue(),
            delivered(old(self).sessions(), final(self).sessions(), i as int, datagram@, now),
            match old(self).sessions()[i as int].1.socket.answer(datagram@) {
                Ok(_) => res == Ok::<bool, KcpError>(complete(final(self).sessions()[i as int].1.socket.kcp.arrived)),
                Err(err) => res == Err::<bool, KcpError>(err),
            },
    {
        let session = &mut self.sessions[i];
        let res = session.1.input(datagram, now);
        proof {
            let a = old(self).sessions();
            let b = self.sessions();
            assert(b =~= a.update(i as int, b[i as int]));
            assert forall|x: int, y: int| 0 <= x < y < b.len() implies #[trigger] b[x].0 != #[trigger] b[y].0 by {
                assert(b[x].0 == a[x].0 && b[y].0 == a[y].0);
            }
        }
        res
    }

    /// Accepts the datagram in the first `size` bytes of `buf`, which came from `addr`: it goes
    /// to the session with `addr`, or else to a new one, under the conversation number that `buf`
    /// begins with. A new session that refuses it is closed, and is forgotten at its next turn.
    pub fn accept(&mut self, buf: &[u8], size: usize, addr: PeerAddr, now: u64) -> (res: Result<Accepted, KcpError>)
        requires
            old(self).wf(),
            KCP_OVERHEAD <= buf@.len(),
            size <= buf@.len(),
        ensures
            final(self).wf(),
            final(self).config() == old(self).config(),
            final(self).queue() == old(self).queue(),
            knows(old(self).sessions(), addr) ==> exists|i: int| #[trigger]
                delivered(old(self).sessions(), final(self).sessions(), i, buf@.take(size as int), now) && {
                    let a = old(self).sessions()[i].1.socket;
                    &&& old(self).sessions()[i].0 == addr
                    &&& match a.answer(buf@.take(size as int)) {
                        Ok(_) => res == Ok::<Accepted, KcpError>(
                            Accepted::Delivered {
                                readable: complete(final(self).sessions()[i].1.socket.kcp.arrived),
                            },
                        ),
                        Err(err) => res == Err::<Accepted, KcpError>(err),
                    }
                },
            !knows(old(self).sessions(), addr) ==> {
                let b = final(self).sessions();
                let a = SocketView::fresh(
                    old(self).config(),
                    le32(buf@, 0),
                    b.last().1.socket.kcp.output,
                    old(self).config().stream,
                    now,
                );
                &&& added(
                    old(self).sessions(),
                    b,
                    old(self).config(),
                    old(self).queue(),
                    addr,
                    le32(buf@, 0),
                    buf@.take(size as int),
                    now,
                )
                &&& match a.answer(buf@.take(size as int)) {
                    Ok(_) => res == Ok::<Accepted, KcpError>(
                        Accepted::New { readable: complete(b.last().1.socket.kcp.arrived) },
                    ),
                    Err(err) => res == Err::<Accepted, KcpError>(err),
                }
            },
    {
        let datagram = slice_subrange(buf, 0, size);
        match self.find(addr) {
            Some(i) => {
                let ghost at = i as int;
                assert(old(self).sessions()[at].0 == addr);
                match self.deliver(i, datagram, now) {
                    Ok(readable) => Ok(Accepted::Delivered { readable }),
                    Err(err) => Err(err),
                }
            },
            None => {
                let output = KcpOutput::new_with_handle(self.queue.clone(), addr);
                let kcp = SharedKcp::new_with_output(
                    &self.config,
                    kcp_get_conv(buf),
                    output,
                    self.config.stream,
                    now,
                );
                self.sessions.push((addr, ServerKcpIo::new(kcp)));
                let ghost mid = self.sessions();
                assert(mid =~= old(self).sessions().push(mid.last()));
                let last = self.sessions.len() - 1;
                // Input the initial packet
                let res = self.deliver(last, datagram, now);
                proof {
                    let b = self.sessions();
                    assert(b =~= old(self).sessions().push(b.last()));
                    lemma_scan(mid.last().1.socket.kcp, datagram@, 0);
                    lemma_reading(mid.last().1.socket.took(datagram@, now));
                    assert(b.last().1.socket.kcp.output == mid.last().1.socket.kcp.output);
                }
                match res {
                    Ok(readable) => Ok(Accepted::New { readable }),
                    Err(err) => {
                        let ghost fed = self.sessions();
                        self.session(last).shutdown();
                        proof {
                            let b = self.sessions();
                            assert(b =~= old(self).sessions().push(b.last()));
                            assert(b.last().1.socket.kcp.output == fed.last().1.socket.kcp.output);
                        }
                        Err(err)
                    },
                }
            },
        }
    }

    /// How long the buffer has to be into which a datagram is received.
    pub fn recv_len(&self) -> (res: usize)
        requires
            self.wf(),
        ensures
            res == self.config().mtu,
            res >= KCP_OVERHEAD,
    {
        self.config.mtu
    }

    /// How many sessions there are.
    pub fn len(&self) -> (res: usize)
        ensures
            res == self.sessions().len(),
    {
        self.sessions.len()
    }

    /// The session at `i`.
    pub fn session(&mut self, i: usize) -> (res: &mut ServerKcpIo)
        requires
            old(self).wf(),
            i < old(self).sessions().len(),
        ensures
            res@ == old(self).sessions()[i as int].1,
            res.after_flush() == old(self).after_flush(i as int),
            forall|current: u32| #[trigger] res.after_update(current) == old(self).after_update(i as int, current),
            res.wf(),
            final(res).wf() ==> final(self).wf(),
            final(self).config() == old(self).config(),
            final(self).queue() == old(self).queue(),
            final(self).sessions() == old(self).sessions().update(
                i as int,
                (old(self).sessions()[i as int].0, final(res)@),
            ),
    {
        let ghost a = self.sessions();
        let session = &mut self.sessions[i];
        let res = &mut session.1;
        proof {
            assert forall|b: Sessions| #[trigger] peers_differ(b) || !(b.len() == a.len() && forall|x: int|
                0 <= x < b.len() ==> (#[trigger] b[x]).0 == a[x].0) by {
                if b.len() == a.len() && forall|x: int| 0 <= x < b.len() ==> (#[trigger] b[x]).0 == a[x].0 {
                    assert forall|x: int, y: int| 0 <= x < y < b.len() implies #[trigger] b[x].0 != #[trigger] b[y].0 by {
                        assert(a[x].0 != a[y].0);
                    }
                }
            }
        }
        res
    }

    /// The milliseconds that the session at `i` can be left alone, by the clock reading `current`.
    pub closed spec fn check(&self, i: int, current: u32) -> u32 {
        self.sessions@[i].1.check(current)
    }

    /// What is known of a session's time is known of a machine in its state.
    pub(crate) proof fn lemma_machine(&self, i: int, current: u32)
        requires
            0 <= i < self.sessions().len(),
        ensures
            exists|k: Kcp<KcpOutput>|
                kcp_state(k) == self.sessions()[i].1.socket.kcp && #[trigger] kcp_check(k, current) == self.check(
                    i,
                    current,
                ),
    {
        self.sessions@[i].1.lemma_machine(current);
    }

    /// The state in which a flush leaves the machine of the session at `i`.
    pub closed spec fn after_flush(&self, i: int) -> KcpState {
        self.sessions@[i].1.after_flush()
    }

    /// The state in which an update at the clock reading `current` leaves the machine of the session at
    /// `i`.
    pub closed spec fn after_update(&self, i: int, current: u32) -> KcpState {
        self.sessions@[i].1.after_update(current)
    }

    /// A turn of the timer of the session at `i`, at time `now` and the clock reading `current`;
    /// `later` is the reading when the turn is done.
    ///
    /// A session that is closed and has nothing left to send ends, and so does one whose peer has
    /// been silent for twice the expiry. What it has to send is flushed, and it is forgotten. One
    /// whose peer has been silent for longer than the expiry is closed.
    pub fn tick(&mut self, i: usize, now: u64, current: u32, later: u32) -> (res: Turn)
        requires
            old(self).wf(),
            i < old(self).sessions().len(),
        ensures
            final(self).wf(),
            final(self).config() == old(self).config(),
            final(self).queue() == old(self).queue(),
            (res is Ended) == session_of(old(self).sessions()[i as int].1, old(self).config()).ends(now),
            match res {
                Turn::Ended { peer, io, sender } => {
                    let a = old(self).sessions()[i as int];
                    &&& final(self).sessions() == old(self).sessions().remove(i as int)
                    &&& peer == a.0
                    &&& io.wf()
                    &&& ended(a.1, io@)
                    &&& a.1.socket.kcp.updated ==> io@.socket.kcp == old(self).after_flush(i as int)
                    &&& sender == a.1.socket.send_task
                },
                Turn::Sleep(next) => {
                    let a = old(self).sessions()[i as int];
                    let b = final(self).sessions()[i as int];
                    &&& next == final(self).check(i as int, later)
                    &&& next <= a.1.socket.kcp.interval
                    &&& final(self).sessions() == old(self).sessions().update(i as int, b)
                    &&& b.0 == a.0
                    &&& kept(a.1, b.1, old(self).config(), now, current)
                    &&& b.1.socket.kcp == old(self).after_update(i as int, current)
                },
            },
    {
        let ghost a = self.sessions();
        let addr = self.sessions[i].0;
        let (overdue, gone) = outlasts(self.sessions[i].1.elapsed(now), self.config.session_expire);
        if gone || self.sessions[i].1.is_done() {
            let mut io = self.forget(i);
            let sender = io.expire();
            return Turn::Ended { peer: addr, io, sender };
        }
        let session = &mut self.sessions[i];
        if overdue {
            session.1.shutdown();
        }
        let res = match session.1.update_at(current, later) {
            Ok(next) => Turn::Sleep(next),
            Err(_) => Turn::Sleep(10),
        };
        proof {
            let b = self.sessions();
            assert(b =~= a.update(i as int, b[i as int]));
            assert forall|x: int, y: int| 0 <= x < y < b.len() implies #[trigger] b[x].0 != #[trigger] b[y].0 by {
                assert(b[x].0 == a[x].0 && b[y].0 == a[y].0);
            }
        }
        res
    }

    /// Forgets the session at `i`, and hands it out.
    fn forget(&mut self, i: usize) -> (io: ServerKcpIo)
        requires
            old(self).wf(),
            i < old(self).sessions().len(),
        ensures
            final(self).wf(),
            final(self).config() == old(self).config(),
            final(self).queue() == old(self).queue(),
            final(self).sessions() == old(self).sessions().remove(i as int),
            !knows(final(self).sessions(), old(self).sessions()[i as int].0),
            io.wf(),
            io@ == old(self).sessions()[i as int].1,
            io.after_flush() == old(self).after_flush(i as int),
    {
        let (_, io) = self.sessions.remove(i);
        proof {
            let a = old(self).sessions();
            let b = self.sessions();
            assert(b =~= a.remove(i as int));
            assert forall|x: int| 0 <= x < b.len() implies (#[trigger] b[x]).0 != a[i as int].0 by {
                let y = if x < i { x } else { x + 1 };
                assert(a[y].0 != a[i as int].0);
            }
            assert forall|x: int, y: int| 0 <= x < y < b.len() implies #[trigger] b[x].0 != #[trigger] b[y].0 by {
                let p = if x < i { x } else { x + 1 };
                let q = if y < i { y } else { y + 1 };
                assert(a[p].0 != a[q].0);
            }
        }
        io
    }

    /// Forgets the session with `addr`. Returns whether there was one.
    pub fn remove(&mut self, addr: PeerAddr) -> (res: bool)
        requires
            old(self).wf(),
        ensures
            final(self).wf(),
            final(self).config() == old(self).config(),
            final(self).queue() == old(self).queue(),
            res == knows(old(self).sessions(), addr),
            !knows(final(self).sessions(), addr),
            res ==> exists|i: int|
                0 <= i < old(self).sessions().len() && #[trigger] old(self).sessions()[i].0 == addr
                    && final(self).sessions() == old(self).sessions().remove(i),
            !res ==> final(self).sessions() == old(self).sessions(),
    {
        match self.find(addr) {
            Some(i) => {
                assert(self.sessions()[i as int].0 == addr);
                let _ = self.forget(i);
                true
            },
            None => false,
        }
    }
}

/// A peer keeps its session: after its first datagram it is known, and so are all that were.
pub proof fn accepted_peers_are_known(
    a: Sessions,
    b: Sessions,
    config: KcpConfig,
    queue: KcpOutputHandle,
    addr: PeerAddr,
    conv: u32,
    d: Seq<u8>,
    now: u64,
    other: PeerAddr,
)
    requires
        added(a, b, config, queue, addr, conv, d, now),
    ensures
        knows(b, addr),
        knows(a, other) ==> knows(b, other),
        forall|i: int| 0 <= i < a.len() ==> #[trigger] b[i] == a[i],
{
    assert(b[b.len() - 1].0 == addr);
    if knows(a, other) {
        let i = choose|i: int| 0 <= i < a.len() && #[trigger] a[i].0 == other;
        assert(b[i].0 == other);
    }
}

/// Every session of a listener with an expiry ends: its timer's first turn after the peer has been
/// silent for twice the expiry ends it, and after once the expiry it is closed.
pub proof fn silent_sessions_end(a: IoView, b: IoView, config: KcpConfig, now: u64, current: u32)
    ensures
        session_of(a, config).overdue(now, 2) ==> session_of(a, config).ends(now),
        session_of(a, config).overdue(now, 1) && kept(a, b, config, now, current) ==> session_of(b, config).closed,
{
}

/// A datagram concerns the session of its peer alone, and no session comes or goes by it.
pub proof fn other_sessions_are_left_alone(a: Sessions, b: Sessions, i: int, d: Seq<u8>, now: u64, j: int)
    requires
        delivered(a, b, i, d, now),
        0 <= j < a.len(),
        j != i,
    ensures
        b.len() == a.len(),
        b[j] == a[j],
        b[i].0 == a[i].0,
{
}

} // verus!
