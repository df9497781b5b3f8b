//! Buffered reading and writing on a session.

use kcp::Kcp;
use vstd::prelude::*;
use vstd::slice::slice_subrange;

use crate::engine::{
    after_message, complete, flush_of, join, kcp_check, kcp_state, lemma_after_read, lemma_join_prefix, lemma_message_first,
    lemma_past_empty, message, update_of, verdict, KcpState,
};
use crate::error::KcpError;
use crate::output::KcpOutput;
use crate::skcp::{
    flush_outcome, lemma_reading, send_outcome, SharedKcp, SocketView,
};

verus! {

/// `n` is the least power of two that is not less than `at_least`.
pub open spec fn is_next_power_of_two(at_least: usize, n: usize) -> bool {
    &&& at_least <= n
    &&& exists|e: nat| #[trigger] vstd::arithmetic::power2::pow2(e) == n && (e == 0 || n / 2 < at_least)
}

/// The least power of two that is not less than `n`, or `n` itself if there is none.
pub fn next_power_of_two(n: usize) -> (res: usize)
    ensures
        n <= res,
        is_next_power_of_two(n, res) || res == n && n > usize::MAX / 2,
{
    let mut p: usize = 1;
    let ghost mut e: nat = 0;
    proof {
        vstd::arithmetic::power2::lemma2_to64();
    }
    while p < n
        invariant
            p == vstd::arithmetic::power2::pow2(e),
            e == 0 || p / 2 < n,
            p >= 1,
        decreases usize::MAX - p,
    {
        if p > usize::MAX / 2 {
            return n;
        }
        p = p * 2;
        proof {
            vstd::arithmetic::power2::lemma_pow2_unfold((e + 1) as nat);
            e = e + 1;
        }
    }
    p
}

/// Copies the first `n` bytes of `src` to the front of `dst`.
pub(crate) fn copy_front(src: &[u8], dst: &mut [u8], n: usize)
    requires
        n <= src@.len(),
        n <= old(dst)@.len(),
    ensures
        final(dst)@ == src@.take(n as int) + old(dst)@.skip(n as int),
{
    let mut i: usize = 0;
    while i < n
        invariant
            i <= n,
            n <= src@.len(),
            n <= old(dst)@.len(),
            dst@ == src@.take(i as int) + old(dst)@.skip(i as int),
        decreases n - i,
    {
        dst[i] = src[i];
        i += 1;
        assert(dst@ =~= src@.take(i as int) + old(dst)@.skip(i as int));
    }
}

/// What a session with bytes left unread, and a reader of it, know.
#[verifier::ext_equal]
pub struct IoView {
    /// The session's socket.
    pub socket: SocketView,
    /// The bytes of the last message that were not read yet.
    pub unread: Seq<u8>,
}

impl IoView {
    /// The buffer is filled at time `now`: what is known afterwards, and the bytes that can be read
    /// or why there are none. Bytes that were not read yet stay, and the next message is taken where
    /// there are none.
    pub open spec fn filled(self, now: u64) -> (IoView, Result<Seq<u8>, KcpError>) {
        if self.unread.len() > 0 {
            (self, Ok(self.unread))
        } else {
            let (socket, res) = self.socket.next_message(now);
            match res {
                Ok(m) => (IoView { socket, unread: m }, Ok(m)),
                Err(err) => (IoView { socket, unread: Seq::empty() }, Err(err)),
            }
        }
    }

    /// Bytes are read into `buf` at time `now`: what is known afterwards, the buffer, and how many
    /// bytes were read or why there are none. They are as many as there are and fit, of those that
    /// were not read yet or else of the next message; the rest of them stays.
    pub open spec fn read(self, buf: Seq<u8>, now: u64) -> (IoView, Seq<u8>, Result<usize, KcpError>) {
        let (filled, available) = self.filled(now);
        match available {
            Ok(m) => {
                let n = if m.len() < buf.len() {
                    m.len()
                } else {
                    buf.len()
                };
                (
                    IoView { unread: m.skip(n as int), ..filled },
                    m.take(n as int) + buf.skip(n as int),
                    Ok(n as usize),
                )
            },
            Err(err) => (filled, buf, Err(err)),
        }
    }

    /// The bytes that a reader can still get, as far as they have arrived.
    pub open spec fn bytes(self) -> Seq<u8> {
        self.unread + join(self.socket.kcp.arrived)
    }
}

/// Reads give back the bytes that have arrived, in order, however they are cut: the bytes read
/// and those still there are the bytes that were there, and what arrives is only added behind.
pub proof fn reads_follow_the_bytes(a: IoView, buf: Seq<u8>, now: u64)
    requires
        a.socket.kcp.wf(),
        buf.len() <= usize::MAX,
    ensures
        ({
            let (b, after, res) = a.read(buf, now);
            &&& res is Ok ==> a.bytes().is_prefix_of(after.take(res->Ok_0 as int) + b.bytes())
            &&& res is Err ==> a.bytes().is_prefix_of(b.bytes()) && after == buf
        }),
{
    let (filled, available) = a.filled(now);
    let (b, after, res) = a.read(buf, now);
    if a.unread.len() == 0 && !a.socket.expired {
        let at = a.socket.reading();
        lemma_past_empty(a.socket.kcp);
        if available is Ok {
            lemma_message_first(at.arrived);
            lemma_after_read(at);
            lemma_join_prefix(after_message(at.arrived), filled.socket.kcp.arrived);
        }
    }
    assert(a.bytes().is_prefix_of(filled.bytes()));
    if available is Ok {
        let n = res->Ok_0 as int;
        assert(after.take(n) =~= available->Ok_0.take(n));
        assert(filled.unread =~= available->Ok_0.take(n) + available->Ok_0.skip(n));
        assert(filled.bytes() =~= after.take(n) + b.bytes());
    }
}

/// Base Io object for KCP
pub struct KcpIo {
    kcp: SharedKcp,
    read_buf: Vec<u8>,
    read_pos: usize,
    read_cap: usize,
}

impl View for KcpIo {
    type V = IoView;

    closed spec fn view(&self) -> IoView {
        IoView { socket: self.kcp@, unread: self.read_buf@.subrange(self.read_pos as int, self.read_cap as int) }
    }
}

impl KcpIo {
    /// The session is sound, and what was not read yet lies in the buffer.
    pub closed spec fn wf(&self) -> bool {
        &&& self.kcp.wf()
        &&& self.read_pos <= self.read_cap <= self.read_buf@.len()
    }

    /// What holds of a sound session.
    pub(crate) proof fn lemma_wf(&self)
        requires
            self.wf(),
        ensures
            self@.socket.kcp.wf(),
    {
        self.kcp.lemma_wf();
    }

    /// The state in which a flush leaves the session's machine.
    pub closed spec fn after_flush(&self) -> KcpState {
        self.kcp.after_flush()
    }

    /// The state in which an update at the clock reading `current` leaves the session's machine.
    pub closed spec fn after_update(&self, current: u32) -> KcpState {
        self.kcp.after_update(current)
    }

    /// Reading and writing on a session.
    pub fn new(kcp: SharedKcp) -> (res: KcpIo)
        requires
            kcp.wf(),
        ensures
            res.wf(),
            res@ == (IoView { socket: kcp@, unread: Seq::empty() }),
            res.after_flush() == kcp.after_flush(),
            forall|current: u32| #[trigger] res.after_update(current) == kcp.after_update(current),
    {
        let res = KcpIo { kcp, read_buf: Vec::new(), read_pos: 0, read_cap: 0 };
        assert(res@.unread =~= Seq::empty());
        res
    }

    /// Call everytime you got data from transmission
    pub fn input(&mut self, buf: &[u8], now: u64) -> (res: Result<(), KcpError>)
        requires
            old(self).wf(),
        ensures
            final(self).wf(),
            final(self)@.unread == old(self)@.unread,
            final(self)@.socket == old(self)@.socket.took(buf@, now),
            res == old(self)@.socket.answer(buf@),
    {
        self.kcp.input(buf, now)
    }

    /// MTU
    pub fn mtu(&self) -> (res: usize)
        ensures
            res == self@.socket.kcp.mtu,
    {
        self.kcp.mtu()
    }

    /// Shutdown
    pub fn shutdown(&mut self)
        requires
            old(self).wf(),
        ensures
            final(self).wf(),
            final(self)@ == (IoView {
                socket: (SocketView { is_closed: true, ..old(self)@.socket }),
                ..old(self)@
            }),
            forall|current: u32| #[trigger] final(self).after_update(current) == old(self).after_update(current),
    {
        self.kcp.close();
    }

    /// Check if can read
    pub fn can_read(&self) -> (res: bool)
        ensures
            res == (self@.socket.peek() != 0),
    {
        self.kcp.can_read()
    }

    /// How many bytes of the last message were not read yet.
    pub fn buf_remaining(&self) -> (res: usize)
        requires
            self.wf(),
        ensures
            res == self@.unread.len(),
    {
        self.read_cap - self.read_pos
    }

    /// Takes the next message into the buffer, unless bytes there were not read yet.
    fn refill(&mut self, now: u64) -> (res: Result<(), KcpError>)
        requires
            old(self).wf(),
        ensures
            final(self).wf(),
            final(self)@ == old(self)@.filled(now).0,
            match res {
                Ok(_) => old(self)@.filled(now).1 == Ok::<Seq<u8>, KcpError>(final(self)@.unread),
                Err(err) => old(self)@.filled(now).1 == Err::<Seq<u8>, KcpError>(err),
            },
    {
        if self.read_pos >= self.read_cap {
            if self.read_buf.len() == 0 {
                let mtu = self.kcp.mtu();
                self.read_buf.resize(mtu, 0);
            }
            let ghost first = self.kcp@;
            let ghost mut tries: nat = 1;
            loop
                invariant
                    old(self).wf(),
                    self.kcp.wf(),
                    first == old(self)@.socket,
                    old(self)@.unread.len() == 0,
                    self.read_pos >= self.read_cap,
                    self.read_pos <= self.read_cap <= self.read_buf@.len(),
                    self.kcp@ == (SocketView { kcp: self.kcp@.kcp, ..first }),
                    self.kcp@.reading() == first.reading(),
                    tries == 1 ==> self.kcp@ == first,
                    tries <= 1,
                    tries == 0 ==> !first.expired && complete(first.reading().arrived) && message(
                        first.reading().arrived,
                    ).len() <= self.read_buf@.len(),
                decreases tries,
            {
                proof {
                    self.kcp.lemma_wf();
                    lemma_reading(self.kcp@);
                }
                match self.kcp.recv(self.read_buf.as_mut_slice(), now) {
                    Ok(n) => {
                        self.read_pos = 0;
                        self.read_cap = n;
                        proof {
                            if first.expired {
                                assert(self@.unread =~= Seq::empty());
                            } else {
                                assert(self@.unread =~= message(first.reading().arrived));
                            }
                        }
                        return Ok(());
                    },
                    Err(KcpError::UserBufTooSmall) => {
                        let incr = next_power_of_two(self.kcp.peeksize());
                        self.read_buf.resize(incr, 0);
                        proof {
                            tries = 0;
                        }
                    },
                    Err(err) => {
                        assert(self@.unread =~= Seq::empty());
                        return Err(err);
                    },
                }
            }
        }
        Ok(())
    }

    /// The bytes that can be read: those of the last message that were not read yet, or else the
    /// next message.
    pub fn fill_buf(&mut self, now: u64) -> (res: Result<&[u8], KcpError>)
        requires
            old(self).wf(),
        ensures
            final(self).wf(),
            final(self)@ == old(self)@.filled(now).0,
            match res {
                Ok(available) => old(self)@.filled(now).1 == Ok::<Seq<u8>, KcpError>(available@),
                Err(err) => old(self)@.filled(now).1 == Err::<Seq<u8>, KcpError>(err),
            },
    {
        match self.refill(now) {
            Ok(_) => Ok(slice_subrange(self.read_buf.as_slice(), self.read_pos, self.read_cap)),
            Err(err) => Err(err),
        }
    }

    /// Takes `amt` of the bytes that can be read as read, all of them if there are fewer.
    pub fn consume(&mut self, amt: usize)
        requires
            old(self).wf(),
        ensures
            final(self).wf(),
            final(self)@ == (IoView {
                unread: if amt < old(self)@.unread.len() {
                    old(self)@.unread.skip(amt as int)
                } else {
                    Seq::empty()
                },
                ..old(self)@
            }),
    {
        if amt < self.read_cap - self.read_pos {
            self.read_pos = self.read_pos + amt;
            assert(self@.unread =~= old(self)@.unread.skip(amt as int));
        } else {
            self.read_pos = self.read_cap;
            assert(self@.unread =~= Seq::empty());
        }
    }

    /// Reads at most one message into `buf`, or what `buf` has room for.
    pub fn read(&mut self, buf: &mut [u8], now: u64) -> (res: Result<usize, KcpError>)
        requires
            old(self).wf(),
        ensures
            final(self).wf(),
            final(buf)@.len() == old(buf)@.len(),
            final(self)@ == old(self)@.read(old(buf)@, now).0,
            final(buf)@ == old(self)@.read(old(buf)@, now).1,
            res == old(self)@.read(old(buf)@, now).2,
    {
        proof {
            self.kcp.lemma_wf();
            lemma_reading(self.kcp@);
        }
        if self.buf_remaining() == 0 {
            // Try to read directly
            match self.kcp.recv(buf, now) {
                Ok(n) => {
                    proof {
                        let m = if old(self)@.socket.expired {
                            Seq::empty()
                        } else {
                            message(old(self)@.socket.reading().arrived)
                        };
                        assert(m.take(n as int) =~= m);
                        assert(m.skip(n as int) =~= self@.unread);
                        assert(buf@ =~= m.take(n as int) + old(buf)@.skip(n as int));
                    }
                    return Ok(n);
                },
                Err(KcpError::UserBufTooSmall) => {},
                Err(err) => {
                    assert(self@.unread =~= Seq::empty());
                    return Err(err);
                },
            }
        }
        assert(buf@ == old(buf)@);
        match self.refill(now) {
            Ok(_) => {},
            Err(err) => {
                return Err(err);
            },
        }
        let ghost filled = self@;
        let available = slice_subrange(self.read_buf.as_slice(), self.read_pos, self.read_cap);
        let nread = if available.len() < buf.len() {
            available.len()
        } else {
            buf.len()
        };
        copy_front(available, buf, nread);
        self.consume(nread);
        proof {
            assert(self@.unread =~= filled.unread.skip(nread as int));
        }
        Ok(nread)
    }

    /// Whether `len` bytes may be written: a packet that asks for a conversation number must fit
    /// in a segment.
    pub fn accepts(&self, len: usize) -> (res: bool)
        requires
            self.wf(),
        ensures
            res == self@.socket.may_send(len as nat),
    {
        self.kcp.accepts(len)
    }

    /// Sends a message.
    pub fn write(&mut self, buf: &[u8], now: u64) -> (res: Result<usize, KcpError>)
        requires
            old(self).wf(),
            old(self)@.socket.may_send(buf@.len()),
        ensures
            final(self).wf(),
            final(self)@.unread == old(self)@.unread,
            send_outcome(old(self)@.socket, final(self)@.socket, buf@, now, res),
    {
        self.kcp.send(buf, now)
    }

    /// Flushes all pending data.
    pub fn flush(&mut self, now: u64) -> (res: Result<(), KcpError>)
        requires
            old(self).wf(),
        ensures
            final(self).wf(),
            final(self)@.unread == old(self)@.unread,
            flush_outcome(old(self)@.socket, final(self)@.socket, now, res),
            res is Ok ==> final(self)@.socket.kcp == old(self).after_flush(),
    {
        self.kcp.flush(now)
    }

    /// The session's socket.
    pub fn socket(&mut self) -> (res: &mut SharedKcp)
        requires
            old(self).wf(),
        ensures
            res@ == old(self)@.socket,
            res.after_flush() == old(self).after_flush(),
            forall|current: u32| #[trigger] res.after_update(current) == old(self).after_update(current),
            res.wf(),
            final(res).wf() ==> final(self).wf(),
            final(self)@ == (IoView { socket: final(res)@, ..old(self)@ }),
            final(self).after_flush() == final(res).after_flush(),
            forall|current: u32| #[trigger] final(self).after_update(current) == final(res).after_update(current),
    {
        &mut self.kcp
    }
}

/// Io object for client
pub struct ClientKcpIo {
    io: KcpIo,
}

impl View for ClientKcpIo {
    type V = IoView;

    closed spec fn view(&self) -> IoView {
        self.io@
    }
}

impl ClientKcpIo {
    /// The session is sound.
    pub closed spec fn wf(&self) -> bool {
        self.io.wf()
    }

    /// The state in which a flush leaves the session's machine.
    pub closed spec fn after_flush(&self) -> KcpState {
        self.io.after_flush()
    }

    /// The state in which an update at the clock reading `current` leaves the session's machine.
    pub closed spec fn after_update(&self, current: u32) -> KcpState {
        self.io.after_update(current)
    }

    /// What holds of a sound session.
    pub(crate) proof fn lemma_wf(&self)
        requires
            self.wf(),
        ensures
            self@.socket.kcp.wf(),
    {
        self.io.lemma_wf();
    }

    /// Reading and writing on a client's session, which is updated once at the clock reading
    /// `current`.
    pub fn new(kcp: SharedKcp, current: u32) -> (res: Result<ClientKcpIo, KcpError>)
        requires
            kcp.wf(),
        ensures
            res is Ok,
            res->Ok_0.wf(),
            res->Ok_0@.unread == Seq::<u8>::empty(),
            update_of(kcp@.kcp, res->Ok_0@.socket.kcp, current),
            res->Ok_0@.socket.kcp == kcp.after_update(current),
            res->Ok_0@.socket == (SocketView { kcp: res->Ok_0@.socket.kcp, ..kcp@ }),
    {
        let mut kcp = kcp;
        // Call update once it is created
        match kcp.update_at(current, current) {
            Ok(_) => Ok(ClientKcpIo { io: KcpIo::new(kcp) }),
            Err(err) => Err(err),
        }
    }

    /// Call everytime you got data from transmission
    pub fn input(&mut self, buf: &[u8], now: u64) -> (res: Result<(), KcpError>)
        requires
            old(self).wf(),
        ensures
            final(self).wf(),
            final(self)@.unread == old(self)@.unread,
            final(self)@.socket == old(self)@.socket.took(buf@, now),
            res == old(self)@.socket.answer(buf@),
    {
        self.io.input(buf, now)
    }

    /// MTU
    pub fn mtu(&self) -> (res: usize)
        ensures
            res == self@.socket.kcp.mtu,
    {
        self.io.mtu()
    }

    /// Reads at most one message into `buf`, or what `buf` has room for.
    pub fn read(&mut self, buf: &mut [u8], now: u64) -> (res: Result<usize, KcpError>)
        requires
            old(self).wf(),
        ensures
            final(self).wf(),
            final(buf)@.len() == old(buf)@.len(),
            final(self)@ == old(self)@.read(old(buf)@, now).0,
            final(buf)@ == old(self)@.read(old(buf)@, now).1,
            res == old(self)@.read(old(buf)@, now).2,
    {
        self.io.read(buf, now)
    }

    /// Sends a message.
    pub fn write(&mut self, buf: &[u8], now: u64) -> (res: Result<usize, KcpError>)
        requires
            old(self).wf(),
            old(self)@.socket.may_send(buf@.len()),
        ensures
            final(self).wf(),
            final(self)@.unread == old(self)@.unread,
            send_outcome(old(self)@.socket, final(self)@.socket, buf@, now, res),
    {
        self.io.write(buf, now)
    }

    /// Flushes all pending data.
    pub fn flush(&mut self, now: u64) -> (res: Result<(), KcpError>)
        requires
            old(self).wf(),
        ensures
            final(self).wf(),
            final(self)@.unread == old(self)@.unread,
            flush_outcome(old(self)@.socket, final(self)@.socket, now, res),
            res is Ok ==> final(self)@.socket.kcp == old(self).after_flush(),
    {
        self.io.flush(now)
    }

    /// The session behind this object.
    pub fn io(&mut self) -> (res: &mut KcpIo)
        requires
            old(self).wf(),
        ensures
            res@ == old(self)@,
            res.after_flush() == old(self).after_flush(),
            forall|current: u32| #[trigger] res.after_update(current) == old(self).after_update(current),
            res.wf(),
            final(res).wf() ==> final(self).wf(),
            final(self)@ == final(res)@,
            final(self).after_flush() == final(res).after_flush(),
            forall|current: u32| #[trigger] final(self).after_update(current) == final(res).after_update(current),
    {
        &mut self.io
    }
}

/// A server's session after it took the datagram `d` at time `now`: at the message that the next read
/// takes, unless it refused the datagram.
pub open spec fn served(v: SocketView, d: Seq<u8>, now: u64) -> SocketView {
    if v.answer(d) is Ok {
        v.took(d, now).at_message()
    } else {
        v.took(d, now)
    }
}

/// `b` is the session `a` after its end: nothing can be sent or read any more, and what waited is
/// flushed, unless it was never updated.
pub open spec fn ended(a: IoView, b: IoView) -> bool {
    &&& b.unread == a.unread
    &&& b.socket == (SocketView { kcp: b.socket.kcp, expired: true, send_task: false, ..a.socket })
    &&& if a.socket.kcp.updated {
        flush_of(a.socket.kcp, b.socket.kcp)
    } else {
        b.socket.kcp == a.socket.kcp
    }
}

/// Io object for server
pub struct ServerKcpIo {
    io: KcpIo,
}

impl View for ServerKcpIo {
    type V = IoView;

    closed spec fn view(&self) -> IoView {
        self.io@
    }
}

impl ServerKcpIo {
    /// The session is sound.
    pub closed spec fn wf(&self) -> bool {
        self.io.wf()
    }

    /// The state in which a flush leaves the session's machine.
    pub closed spec fn after_flush(&self) -> KcpState {
        self.io.after_flush()
    }

    /// What holds of a sound session.
    pub(crate) proof fn lemma_wf(&self)
        requires
            self.wf(),
        ensures
            self@.socket.kcp.wf(),
    {
        self.io.lemma_wf();
    }

    /// What is known of a session's time is known of a machine in its state.
    pub(crate) proof fn lemma_machine(&self, current: u32)
        ensures
            exists|k: Kcp<KcpOutput>|
                kcp_state(k) == self@.socket.kcp && #[trigger] kcp_check(k, current) == self.check(current),
    {
        self.io.kcp.lemma_machine(current);
    }

    /// Reading and writing on a server's session.
    pub fn new(kcp: SharedKcp) -> (res: ServerKcpIo)
        requires
            kcp.wf(),
        ensures
            res.wf(),
            res@ == (IoView { socket: kcp@, unread: Seq::empty() }),
            res.after_flush() == kcp.after_flush(),
            forall|current: u32| #[trigger] res.after_update(current) == kcp.after_update(current),
    {
        ServerKcpIo { io: KcpIo::new(kcp) }
    }

    /// Call everytime you got data from transmission. Returns whether a read would give a message
    /// now. The empty ones before it, which reads skip, are gone then.
    pub fn input(&mut self, data: &[u8], now: u64) -> (res: Result<bool, KcpError>)
        requires
            old(self).wf(),
        ensures
            final(self).wf(),
            final(self)@.unread == old(self)@.unread,
            final(self)@.socket == served(old(self)@.socket, data@, now),
            match old(self)@.socket.answer(data@) {
                Ok(_) => res == Ok::<bool, KcpError>(complete(final(self)@.socket.kcp.arrived)),
                Err(err) => res == Err::<bool, KcpError>(err),
            },
    {
        match self.io.input(data, now) {
            Ok(_) => Ok(self.io.kcp.readable()),
            Err(err) => Err(err),
        }
    }

    /// Close it
    pub fn shutdown(&mut self)
        requires
            old(self).wf(),
        ensures
            final(self).wf(),
            final(self)@ == (IoView {
                socket: (SocketView { is_closed: true, ..old(self)@.socket }),
                ..old(self)@
            }),
            forall|current: u32| #[trigger] final(self).after_update(current) == old(self).after_update(current),
    {
        self.io.shutdown()
    }

    /// Reads at most one message into `buf`, or what `buf` has room for.
    pub fn read(&mut self, buf: &mut [u8], now: u64) -> (res: Result<usize, KcpError>)
        requires
            old(self).wf(),
        ensures
            final(self).wf(),
            final(buf)@.len() == old(buf)@.len(),
            final(self)@ == old(self)@.read(old(buf)@, now).0,
            final(buf)@ == old(self)@.read(old(buf)@, now).1,
            res == old(self)@.read(old(buf)@, now).2,
    {
        self.io.read(buf, now)
    }

    /// Sends a message.
    pub fn write(&mut self, buf: &[u8], now: u64) -> (res: Result<usize, KcpError>)
        requires
            old(self).wf(),
            old(self)@.socket.may_send(buf@.len()),
        ensures
            final(self).wf(),
            final(self)@.unread == old(self)@.unread,
            send_outcome(old(self)@.socket, final(self)@.socket, buf@, now, res),
    {
        self.io.write(buf, now)
    }

    /// Flushes all pending data.
    pub fn flush(&mut self, now: u64) -> (res: Result<(), KcpError>)
        requires
            old(self).wf(),
        ensures
            final(self).wf(),
            final(self)@.unread == old(self)@.unread,
            flush_outcome(old(self)@.socket, final(self)@.socket, now, res),
            res is Ok ==> final(self)@.socket.kcp == old(self).after_flush(),
    {
        self.io.flush(now)
    }

    /// The session behind this object.
    pub fn io(&mut self) -> (res: &mut KcpIo)
        requires
            old(self).wf(),
        ensures
            res@ == old(self)@,
            res.after_flush() == old(self).after_flush(),
            forall|current: u32| #[trigger] res.after_update(current) == old(self).after_update(current),
            res.wf(),
            final(res).wf() ==> final(self).wf(),
            final(self)@ == final(res)@,
            final(self).after_flush() == final(res).after_flush(),
            forall|current: u32| #[trigger] final(self).after_update(current) == final(res).after_update(current),
    {
        &mut self.io
    }

    /// The milliseconds that the session can be left alone, by the clock reading `current`.
    pub closed spec fn check(&self, current: u32) -> u32 {
        self.io.kcp.check(current)
    }

    /// The state in which an update at the clock reading `current` leaves the session's machine.
    pub closed spec fn after_update(&self, current: u32) -> KcpState {
        self.io.after_update(current)
    }

    /// Updates the session at the clock reading `current`. Returns in how many milliseconds to call
    /// this function again, by the clock reading `later` when the update is done.
    pub fn update_at(&mut self, current: u32, later: u32) -> (res: Result<u32, KcpError>)
        requires
            old(self).wf(),
        ensures
            final(self).wf(),
            res == Ok::<u32, KcpError>(final(self).check(later)),
            final(self).check(later) <= old(self)@.socket.kcp.interval,
            update_of(old(self)@.socket.kcp, final(self)@.socket.kcp, current),
            final(self)@.socket.kcp == old(self).after_update(current),
            final(self)@ == (IoView {
                socket: (SocketView { kcp: final(self)@.socket.kcp, ..old(self)@.socket }),
                ..old(self)@
            }),
    {
        self.io.kcp.update_at(current, later)
    }

    /// Ends the session: nothing can be sent or read any more. What waits is flushed. Returns whether
    /// the sender has to be woken.
    pub fn expire(&mut self) -> (sender: bool)
        requires
            old(self).wf(),
        ensures
            final(self).wf(),
            sender == old(self)@.socket.send_task,
            ended(old(self)@, final(self)@),
            old(self)@.socket.kcp.updated ==> final(self)@.socket.kcp == old(self).after_flush(),
    {
        self.io.kcp.set_expired().0
    }

    /// Whether the session was closed and has nothing left to send.
    pub fn is_done(&self) -> (res: bool)
        requires
            self.wf(),
        ensures
            res == (self@.socket.is_closed && self@.socket.kcp.wait_snd() == 0),
    {
        self.io.kcp.is_closed() && self.io.kcp.can_close()
    }

    /// How long the session had no interaction, at time `now`
    pub fn elapsed(&self, now: u64) -> (res: u64)
        ensures
            res == if now < self@.socket.last_update { 0 } else { now - self@.socket.last_update },
    {
        self.io.kcp.elapsed(now)
    }
}

} // verus!
