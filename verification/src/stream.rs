//! A stream on a session, for a caller that polls it.

use vstd::prelude::*;
use vstd::slice::slice_subrange;

use crate::config::KcpConfig;
use crate::engine::message;
use crate::error::{ErrorClass, KcpError};
use crate::kcp_io::{copy_front, IoView};
use crate::output::PeerAddr;
use crate::session::{KcpSession, SessionView};
use crate::skcp::{
    flush_outcome, lemma_reading, send_outcome, SharedKcp,
};

verus! {

/// `rand::random`: a number that chance picks. Nothing is known of it.
#[verifier::external_body]
fn random_conv() -> u32 {
    rand::random()
}

/// A number that chance picked.
pub closed spec fn picked_by_chance(conv: u32) -> bool {
    call_ensures(random_conv, (), conv)
}

/// The answer to a poll.
pub enum Polled {
    /// The call is done.
    Ready(Result<usize, KcpError>),
    /// The caller has to wait to be woken.
    Pending,
}

/// The answer to a poll on which a call ended so: one that would have to wait is pending.
pub open spec fn polled(res: Result<usize, KcpError>) -> Polled {
    match res {
        Err(err) => if err.spec_class() == ErrorClass::WouldBlock {
            Polled::Pending
        } else {
            Polled::Ready(res)
        },
        Ok(_) => Polled::Ready(res),
    }
}

/// Turns the end of a call into the answer to a poll.
fn to_polled(res: Result<usize, KcpError>) -> (r: Polled)
    ensures
        r == polled(res),
{
    match res {
        Ok(n) => Polled::Ready(Ok(n)),
        Err(err) => {
            let class = err.class();
            if class == ErrorClass::WouldBlock {
                Polled::Pending
            } else {
                Polled::Ready(Err(err))
            }
        },
    }
}

/// What reading from a session with bytes left unread comes to, for a caller that polls: what is
/// known of both afterwards, the buffer, the answer, and whether the session has to be updated
/// soon, which is so whenever a message was taken out of it.
pub open spec fn recv_outcome(
    a: IoView,
    b: IoView,
    before: Seq<u8>,
    after: Seq<u8>,
    now: u64,
    res: (Polled, bool),
) -> bool {
    let (known, buf, r) = a.read(before, now);
    &&& b == known
    &&& after == buf
    &&& res.0 == polled(r)
    &&& res.1 == (a.unread.len() == 0 && r is Ok)
}

/// A stream on a session: what of the last message did not fit in the caller's buffer.
pub struct KcpStream {
    recv_buffer: Vec<u8>,
    recv_buffer_pos: usize,
    recv_buffer_cap: usize,
}

impl View for KcpStream {
    type V = Seq<u8>;

    /// The bytes of the last message that were not read yet.
    closed spec fn view(&self) -> Seq<u8> {
        self.recv_buffer@.subrange(self.recv_buffer_pos as int, self.recv_buffer_cap as int)
    }
}

impl KcpStream {
    /// What was not read yet lies in the buffer.
    pub closed spec fn wf(&self) -> bool {
        self.recv_buffer_pos <= self.recv_buffer_cap <= self.recv_buffer@.len()
    }

    /// A stream on a session.
    pub fn new() -> (res: KcpStream)
        ensures
            res.wf(),
            res@ == Seq::<u8>::empty(),
    {
        let res = KcpStream { recv_buffer: Vec::new(), recv_buffer_pos: 0, recv_buffer_cap: 0 };
        assert(res@ =~= Seq::empty());
        res
    }

    /// A client's session with `peer`, under the conversation number `conv`, and a stream on it.
    pub fn connect_with_conv(config: &KcpConfig, conv: u32, peer: PeerAddr, now: u64) -> (res: (KcpStream, KcpSession))
        requires
            config.valid(),
        ensures
            res.0.wf(),
            res.0@ == Seq::<u8>::empty(),
            res.1.wf(),
            res.1@.is_new_client(*config, conv, peer, now),
    {
        let socket = SharedKcp::new(config, conv, peer, config.stream, now);
        (KcpStream::new(), KcpSession::new(socket, config.session_expire, true))
    }

    /// A client's session with `peer`, under a conversation number that chance picks, and a
    /// stream on it.
    pub fn connect(config: &KcpConfig, peer: PeerAddr, now: u64) -> (res: (KcpStream, KcpSession))
        requires
            config.valid(),
        ensures
            res.0.wf(),
            res.0@ == Seq::<u8>::empty(),
            res.1.wf(),
            res.1@.is_new_client(*config, res.1@.socket.kcp.conv, peer, now),
            picked_by_chance(res.1@.socket.kcp.conv),
    {
        let conv = random_conv();
        KcpStream::connect_with_conv(config, conv, peer, now)
    }

    /// Sends a message. Also says whether the session has to be updated soon, which is so
    /// whenever the call is done.
    pub fn poll_send(&mut self, session: &mut KcpSession, buf: &[u8], now: u64) -> (res: (Polled, bool))
        requires
            old(self).wf(),
            old(session).wf(),
            old(session)@.socket.may_send(buf@.len()),
        ensures
            final(self).wf(),
            final(self)@ == old(self)@,
            final(session).wf(),
            final(session)@ == (SessionView { socket: final(session)@.socket, ..old(session)@ }),
            exists|r: Result<usize, KcpError>| #[trigger]
                send_outcome(old(session)@.socket, final(session)@.socket, buf@, now, r) && res.0 == polled(r),
            res.1 == (res.0 is Ready),
    {
        let r = session.kcp_socket().send(buf, now);
        assert(send_outcome(old(session)@.socket, session@.socket, buf@, now, r));
        match to_polled(r) {
            Polled::Pending => (Polled::Pending, false),
            done => (done, true),
        }
    }

    /// Reads bytes that were left of the last message, or else the next message or what `buf` has
    /// room for of it. Also says whether the session has to be updated soon, which is so whenever
    /// a message was taken out of it.
    pub fn poll_recv(&mut self, session: &mut KcpSession, buf: &mut [u8], now: u64) -> (res: (Polled, bool))
        requires
            old(self).wf(),
            old(session).wf(),
        ensures
            final(self).wf(),
            final(session).wf(),
            final(session)@ == (SessionView { socket: final(session)@.socket, ..old(session)@ }),
            final(buf)@.len() == old(buf)@.len(),
            recv_outcome(
                IoView { socket: old(session)@.socket, unread: old(self)@ },
                IoView { socket: final(session)@.socket, unread: final(self)@ },
                old(buf)@,
                final(buf)@,
                now,
                res,
            ),
    {
        let ghost before = IoView { socket: session@.socket, unread: self@ };
        let mut notify = false;
        if self.recv_buffer_pos >= self.recv_buffer_cap {
            // Try to read from KCP
            // 1. Read directly with user provided `buf`
            proof {
                session.lemma_wf();
                lemma_reading(session@.socket);
            }
            match session.kcp_socket().recv(buf, now) {
                Ok(n) => {
                    proof {
                        let m = if before.socket.expired {
                            Seq::empty()
                        } else {
                            message(before.socket.reading().arrived)
                        };
                        assert(m.take(n as int) =~= m);
                        assert(m.skip(n as int) =~= self@);
                        assert(buf@ =~= m.take(n as int) + old(buf)@.skip(n as int));
                    }
                    return (Polled::Ready(Ok(n)), true);
                },
                Err(KcpError::UserBufTooSmall) => {},
                Err(err) => {
                    assert(self@ =~= Seq::empty());
                    return (to_polled(Err(err)), false);
                },
            }
            // 2. User `buf` too small, read to recv_buffer
            let socket = session.kcp_socket();
            let required_size = socket.peeksize();
            if self.recv_buffer.len() < required_size {
                self.recv_buffer.resize(required_size, 0);
            }
            match socket.recv(self.recv_buffer.as_mut_slice(), now) {
                Ok(n) => {
                    notify = true;
                    self.recv_buffer_pos = 0;
                    self.recv_buffer_cap = n;
                    assert(self@ =~= message(before.socket.reading().arrived));
                },
                Err(err) => {
                    return (to_polled(Err(err)), false);
                },
            }
        }
        // Consumes all data in buffer
        let ghost filled = IoView { socket: session@.socket, unread: self@ };
        let remaining: usize = self.recv_buffer_cap - self.recv_buffer_pos;
        let copy_length = if remaining < buf.len() {
            remaining
        } else {
            buf.len()
        };
        copy_front(
            slice_subrange(self.recv_buffer.as_slice(), self.recv_buffer_pos, self.recv_buffer_cap),
            buf,
            copy_length,
        );
        self.recv_buffer_pos = self.recv_buffer_pos + copy_length;
        assert(self@ =~= filled.unread.skip(copy_length as int));
        (Polled::Ready(Ok(copy_length)), notify)
    }

    /// Flushes the session. Also says whether it has to be updated soon, which is so whenever it
    /// was flushed.
    pub fn poll_flush(&mut self, session: &mut KcpSession, now: u64) -> (res: (Result<(), KcpError>, bool))
        requires
            old(self).wf(),
            old(session).wf(),
        ensures
            final(self).wf(),
            final(self)@ == old(self)@,
            final(session).wf(),
            final(session)@ == (SessionView { socket: final(session)@.socket, ..old(session)@ }),
            flush_outcome(old(session)@.socket, final(session)@.socket, now, res.0),
            res.0 is Ok ==> final(session)@.socket.kcp == old(session).after_flush(),
            res.1 == (res.0 is Ok),
    {
        match session.kcp_socket().flush(now) {
            Ok(_) => (Ok(()), true),
            Err(err) => (Err(err), false),
        }
    }
}

} // verus!
