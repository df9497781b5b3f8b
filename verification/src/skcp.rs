//! A KCP session's socket: the protocol machine with what the session keeps about it.

use kcp::{Kcp, KcpResult};
use vstd::prelude::*;
use vstd::slice::slice_subrange;

use crate::config::KcpConfig;
use crate::engine::{
    acknowledged_before, after_message, ahead, complete, flush_of, flushed, join, kcp_check, kcp_conv, kcp_flush,
    kcp_flush_ack, kcp_flushed, kcp_input, kcp_input_conv, kcp_mss, kcp_mtu, kcp_new, kcp_new_stream,
    kcp_next_update, kcp_peeksize, kcp_recv, kcp_send, kcp_snd_wnd, kcp_state, kcp_update, kcp_updated,
    kcp_wait_snd, kcp_waiting_conv, le32, lemma_after_read, lemma_join_prefix, lemma_message_first,
    lemma_message_fragments, lemma_past_empty, lemma_scan, lemma_with_message, message, number_after, scan,
    the_next_fragment_arrives, update_of, updated, verdict, KcpState, CMD_PUSH, KCP_OVERHEAD,
};
use crate::error::{from_kcp, of_kcp, ErrorClass, KcpError};
use crate::output::{KcpOutput, KcpOutputHandle, PeerAddr, QueueView};
use crate::utils::{is_reading, now_millis, system_time_nanos};

verus! {

/// How an attempt to receive a datagram ended.
pub enum Received {
    /// The socket has nothing.
    NotReady,
    /// The socket would have had to wait.
    WouldBlock,
    /// So many bytes were received.
    Data(usize),
    /// The socket failed.
    Failed(std::io::Error),
}

/// What a session keeps about its socket.
#[verifier::ext_equal]
pub struct SocketView {
    /// The state of the protocol machine.
    pub kcp: KcpState,
    /// When the session last had any interaction, in nanoseconds.
    pub last_update: u64,
    /// Whether the user has closed it.
    pub is_closed: bool,
    /// Whether a sender waits to be woken.
    pub send_task: bool,
    /// The bytes of the receive buffer.
    pub recv_buf: Seq<u8>,
    /// Whether the session has expired.
    pub expired: bool,
    /// Whether anything was sent.
    pub sent_first: bool,
    /// Whether each write is flushed.
    pub flush_write: bool,
    /// Whether each input is acknowledged at once.
    pub flush_ack_input: bool,
    /// Whether empty messages are handed to the reader.
    pub allow_empty: bool,
}

impl SocketView {
    /// The machine of a new session: one with conversation number 0 asks its peer for a number.
    pub open spec fn first_state(c: KcpConfig, conv: u32, output: KcpOutput, stream: bool) -> KcpState {
        KcpState { waiting_conv: conv == 0, ..c.applied(KcpState::fresh(conv, output, stream)) }
    }

    /// A new session.
    pub open spec fn fresh(c: KcpConfig, conv: u32, output: KcpOutput, stream: bool, now: u64) -> SocketView {
        SocketView {
            kcp: SocketView::first_state(c, conv, output, stream),
            last_update: now,
            is_closed: false,
            send_task: false,
            recv_buf: Seq::empty(),
            expired: false,
            sent_first: false,
            flush_write: c.flush_write,
            flush_ack_input: c.flush_acks_input,
            allow_empty: c.allow_recv_empty_packet,
        }
    }

    /// Whether the send window is full, or the conversation number is still to come.
    pub open spec fn congested(self) -> bool {
        self.kcp.wait_snd() >= self.kcp.snd_wnd || self.kcp.waiting_conv
    }

    /// Whether a sender has to wait: it has asked for a conversation number or sent before, and
    /// the session is congested.
    pub open spec fn blocked(self) -> bool {
        self.sent_first && self.congested()
    }

    /// Whether `len` bytes may be sent: the packet that asks for a conversation number must be a
    /// single segment.
    pub open spec fn may_send(self, len: nat) -> bool {
        self.expired || self.sent_first || !self.kcp.waiting_conv || len <= self.kcp.mss
    }

    /// The session after its machine answered a datagram at time `now`: one that was taken counts as
    /// an interaction, and is acknowledged at once where that is wanted.
    pub open spec fn answered(self, answer: KcpResult<usize>, now: u64) -> SocketView {
        if answer is Err {
            self
        } else if self.flush_ack_input && self.kcp.updated {
            SocketView { kcp: (KcpState { acks: Seq::empty(), ..self.kcp }), last_update: now, ..self }
        } else {
            SocketView { last_update: now, ..self }
        }
    }

    /// The session after it took the datagram `buf` at time `now`.
    pub open spec fn took(self, buf: Seq<u8>, now: u64) -> SocketView {
        let v = verdict(self.kcp, buf);
        (SocketView { kcp: v.state, ..self }).answered(v.result, now)
    }

    /// What the session answers to the datagram `buf`.
    pub open spec fn answer(self, buf: Seq<u8>) -> Result<(), KcpError> {
        input_answer(self, verdict(self.kcp, buf).result)
    }

    /// The machine at the message that the next read takes: behind the empty ones, or at the first
    /// message if empty ones are handed out.
    pub open spec fn reading(self) -> KcpState {
        if self.allow_empty {
            self.kcp
        } else {
            self.kcp.past_empty()
        }
    }

    /// The session with its machine at the message that the next read takes.
    pub open spec fn at_message(self) -> SocketView {
        SocketView { kcp: self.reading(), ..self }
    }

    /// The next message is taken at time `now`: the session afterwards, and the message or why
    /// there is none. An expired session has an empty one.
    pub open spec fn next_message(self, now: u64) -> (SocketView, Result<Seq<u8>, KcpError>) {
        let at = self.reading();
        if self.expired {
            (self, Ok(Seq::empty()))
        } else if complete(at.arrived) {
            (SocketView { kcp: at.after_read(), last_update: now, ..self }, Ok(message(at.arrived)))
        } else if at.arrived.len() == 0 {
            (SocketView { kcp: at, ..self }, Err(KcpError::RecvQueueEmpty))
        } else {
            (SocketView { kcp: at, ..self }, Err(KcpError::ExpectingFragment))
        }
    }

    /// The next message is read into `buf` at time `now`: the session and the buffer afterwards,
    /// and how many bytes were read or why there are none. A message that does not fit stays.
    pub open spec fn read(self, buf: Seq<u8>, now: u64) -> (SocketView, Seq<u8>, Result<usize, KcpError>) {
        match self.next_message(now).1 {
            Ok(m) => if m.len() <= buf.len() {
                (self.next_message(now).0, m + buf.skip(m.len() as int), Ok(m.len() as usize))
            } else {
                (SocketView { kcp: self.reading(), ..self }, buf, Err(KcpError::UserBufTooSmall))
            },
            Err(err) => (self.next_message(now).0, buf, Err(err)),
        }
    }

    /// How many bytes the first message has, 0 if none has arrived in full.
    pub open spec fn peek(self) -> nat {
        if complete(self.kcp.arrived) {
            message(self.kcp.arrived).len()
        } else {
            0
        }
    }
}

/// What sending `buf` at time `now` comes to: session `a` becomes `b`.
///
/// An expired session refuses, and a blocked one has its sender wait. Of a message that is too long
/// the start may have filled up the last waiting fragment, in stream mode. A message that was queued
/// counts as an interaction. Where each write is flushed, a session that was never updated
/// reports that, with the message queued.
pub open spec fn send_outcome(
    a: SocketView,
    b: SocketView,
    buf: Seq<u8>,
    now: u64,
    res: Result<usize, KcpError>,
) -> bool {
    if a.expired {
        res == Err::<usize, KcpError>(KcpError::SessionExpired) && b == a
    } else if a.blocked() {
        res == Err::<usize, KcpError>(KcpError::TooManyPending) && b == (SocketView { send_task: true, ..a })
    } else if a.kcp.too_big(buf.len()) {
        res == Err::<usize, KcpError>(KcpError::UserBufTooBig) && b == (SocketView { kcp: a.kcp.topped_up(buf), ..a })
    } else {
        &&& b == (SocketView { kcp: b.kcp, sent_first: true, last_update: now, ..a })
        &&& if a.flush_write && !a.kcp.updated {
            res == Err::<usize, KcpError>(KcpError::NeedUpdate)
        } else {
            res is Ok && res->Ok_0 == buf.len()
        }
        &&& if a.flush_write && a.kcp.updated {
            flush_of(a.kcp.with_message(buf), b.kcp)
        } else {
            b.kcp == a.kcp.with_message(buf)
        }
    }
}

/// What flushing session `a` at time `now` comes to: it becomes `b`. A session that was never
/// updated reports that.
pub open spec fn flush_outcome(a: SocketView, b: SocketView, now: u64, res: Result<(), KcpError>) -> bool {
    if a.kcp.updated {
        &&& res is Ok
        &&& flush_of(a.kcp, b.kcp)
        &&& b == (SocketView { kcp: b.kcp, last_update: now, ..a })
    } else {
        res == Err::<(), KcpError>(KcpError::NeedUpdate) && b == a
    }
}

/// The message that the next read takes is still that after the empty ones before it were read.
pub(crate) proof fn lemma_reading(v: SocketView)
    requires
        v.kcp.wf(),
    ensures
        (SocketView { kcp: v.reading(), ..v }).reading() == v.reading(),
        v.reading().early.dom().finite(),
        v.reading() == (KcpState {
            arrived: v.reading().arrived,
            early: v.reading().early,
            rcv_nxt: v.reading().rcv_nxt,
            ..v.kcp
        }),
        join(v.kcp.arrived).is_prefix_of(join(v.reading().arrived)),
{
    lemma_past_empty(v.kcp);
}

/// What a session answers to a datagram on which its machine's answer was `res`: a datagram of
/// another conversation is ignored.
pub open spec fn input_answer(v: SocketView, res: KcpResult<usize>) -> Result<(), KcpError> {
    match res {
        Ok(_) => if v.flush_ack_input && !v.kcp.updated {
            Err(KcpError::NeedUpdate)
        } else {
            Ok(())
        },
        Err(kcp::Error::ConvInconsistent(_, _)) => Ok(()),
        Err(err) => Err(of_kcp(err)),
    }
}

/// A session that has expired stays so, whatever is sent, and nothing of it is queued.
pub proof fn sending_does_not_revive(a: SocketView, b: SocketView, buf: Seq<u8>, now: u64, res: Result<usize, KcpError>)
    requires
        send_outcome(a, b, buf, now, res),
        a.expired,
    ensures
        b == a,
        res is Err,
        res->Err_0.spec_class() == ErrorClass::BrokenPipe,
{
}

/// A datagram of another conversation is ignored: the session answers that all is well and stays
/// as it was.
pub proof fn foreign_datagrams_are_ignored(a: SocketView, b: SocketView, datagram: Seq<u8>, now: u64)
    requires
        datagram.len() >= KCP_OVERHEAD,
        le32(datagram, 0) != a.kcp.conv,
        !a.kcp.waiting_conv,
        b == a.took(datagram, now),
    ensures
        b == a,
        a.answer(datagram) is Ok,
{
}

/// A session that waits for its conversation number takes the number of the first segment.
pub proof fn the_peer_sets_the_conversation(a: SocketView, b: SocketView, datagram: Seq<u8>, now: u64)
    requires
        datagram.len() >= KCP_OVERHEAD,
        le32(datagram, 0) != a.kcp.conv,
        a.kcp.waiting_conv,
        b == a.took(datagram, now),
    ensures
        b.kcp.conv == le32(datagram, 0),
        !b.kcp.waiting_conv,
{
    let first = KcpState { conv: le32(datagram, 0), waiting_conv: false, ..a.kcp };
    lemma_scan(first, datagram, 0);
    reveal_with_fuel(scan, 2);
}

/// A datagram only adds to what has arrived, and only takes from what waits: nothing that was to
/// be read or sent is lost by it, and the session is neither closed nor reopened.
pub proof fn datagrams_only_add(a: SocketView, datagram: Seq<u8>, now: u64)
    ensures
        ({
            let b = a.took(datagram, now);
            &&& a.kcp.arrived.is_prefix_of(b.kcp.arrived)
            &&& b.kcp.queued == a.kcp.queued
            &&& b.kcp.wait_snd() <= a.kcp.wait_snd()
            &&& b.expired == a.expired
            &&& b.is_closed == a.is_closed
        }),
{
    lemma_scan(a.kcp, datagram, 0);
}

/// What is received is what is read: a datagram that brings the next message of the conversation,
/// in one segment, to a session with nothing else to read has the next read give the bytes of that
/// message.
pub proof fn a_message_is_read_as_it_came(a: SocketView, datagram: Seq<u8>, now: u64, then: u64)
    requires
        a.kcp.wf(),
        !a.expired,
        a.kcp.arrived.len() == 0,
        a.kcp.early.dom().is_empty(),
        a.kcp.rcv_wnd > 0,
        datagram.len() >= KCP_OVERHEAD,
        le32(datagram, 0) == a.kcp.conv,
        datagram[4] == CMD_PUSH,
        datagram[5] == 0,
        le32(datagram, 12) == a.kcp.rcv_nxt,
        le32(datagram, 20) == datagram.len() - KCP_OVERHEAD,
        datagram.len() > KCP_OVERHEAD || a.allow_empty,
    ensures
        a.took(datagram, now).last_update == now,
        a.took(datagram, now).next_message(then).1 == Ok::<Seq<u8>, KcpError>(datagram.skip(KCP_OVERHEAD as int)),
        a.took(datagram, now).next_message(then).0.kcp.arrived.len() == 0,
{
    let payload = datagram.skip(KCP_OVERHEAD as int);
    let acks = if ahead(a.kcp.rcv_nxt, number_after(a.kcp.rcv_nxt, a.kcp.rcv_wnd as nat)) >= 0x8000_0000 {
        a.kcp.acks.push((a.kcp.rcv_nxt, le32(datagram, 8)))
    } else {
        a.kcp.acks
    };
    let s = KcpState { in_flight: acknowledged_before(a.kcp.in_flight, le32(datagram, 16)), acks, ..a.kcp };
    let f = (0u8, payload);
    assert(datagram.subrange(KCP_OVERHEAD as int, datagram.len() as int) =~= payload);
    the_next_fragment_arrives(s, f);
    let t = s.with_fragment(s.rcv_nxt, f);
    reveal_with_fuel(scan, 2);
    assert(verdict(a.kcp, datagram).state == t);
    let u = a.took(datagram, now).kcp;
    assert(u == (KcpState { acks: u.acks, ..t }));
    let q = t.arrived;
    assert(q =~= seq![f]);
    reveal_with_fuel(join, 2);
    assert(q.take(1) =~= q);
    assert(join(q) =~= payload);
    assert(message(q) == payload);
    lemma_after_read(u);
    assert(u.early.dom() =~= Set::empty());
}

/// Once a session has asked for its conversation number, it sends nothing more before the number
/// has come.
pub proof fn asking_blocks(a: SocketView, b: SocketView, buf: Seq<u8>, now: u64, res: Result<usize, KcpError>)
    requires
        a.kcp.waiting_conv,
        send_outcome(a, b, buf, now, res),
        res is Ok,
    ensures
        b.blocked(),
{
}

/// Sending a message adds its segments to those that wait, whether it is flushed or not, and
/// nothing to what has arrived.
pub proof fn sending_counts_segments(a: SocketView, b: SocketView, buf: Seq<u8>, now: u64, res: Result<usize, KcpError>)
    requires
        a.kcp.wf(),
        send_outcome(a, b, buf, now, res),
        res is Ok,
    ensures
        b.kcp.wait_snd() == a.kcp.wait_snd() + a.kcp.segments_for(buf.len()),
        b.kcp.arrived == a.kcp.arrived,
        res->Ok_0 == buf.len(),
{
    lemma_with_message(a.kcp, buf);
}

/// What is sent goes out in order: the bytes of a message come behind all that wait.
pub proof fn sending_appends_the_bytes(s: KcpState, buf: Seq<u8>)
    requires
        s.wf(),
    ensures
        join(s.with_message(buf).queued) == join(s.queued) + buf,
        join(s.topped_up(buf).queued) == join(s.queued) + buf.take(s.packed(buf.len()) as int),
{
    lemma_with_message(s, buf);
}

/// Flushing and updating do not change how many segments wait, nor what has arrived.
pub proof fn flushing_keeps_the_count(a: KcpState, b: KcpState, current: u32)
    requires
        flushed(a, b) || updated(a, b, current),
    ensures
        b.wait_snd() == a.wait_snd(),
        b.arrived == a.arrived,
        b.conv == a.conv,
{
}

/// An update succeeds whenever the clock is in order, and says by the second reading when the next
/// one is due. It does not count as an interaction of the session.
pub proof fn an_update_succeeds(a: SharedKcp, b: SharedKcp, current: u32, later: u32, res: Result<u32, KcpError>)
    requires
        a.update_outcome(b, Some(current), Some(later), res),
    ensures
        res == Ok::<u32, KcpError>(b.check(later)),
        b@.kcp == a.after_update(current),
        b@.last_update == a@.last_update,
{
}

/// A read gives back the bytes that have arrived, in order: they are the bytes read and those
/// still there, and what arrives is only ever added behind.
pub proof fn reading_takes_bytes_in_order(v: SocketView, buf: Seq<u8>, now: u64)
    requires
        v.kcp.wf(),
        !v.expired,
        buf.len() <= usize::MAX,
    ensures
        ({
            let (w, after, res) = v.read(buf, now);
            &&& res is Ok ==> join(v.kcp.arrived).is_prefix_of(after.take(res->Ok_0 as int) + join(w.kcp.arrived))
            &&& res is Err ==> join(v.kcp.arrived).is_prefix_of(join(w.kcp.arrived)) && after == buf
        }),
{
    let at = v.reading();
    let (w, after, res) = v.read(buf, now);
    lemma_past_empty(v.kcp);
    if complete(at.arrived) && message(at.arrived).len() <= buf.len() {
        let m = message(at.arrived);
        lemma_message_first(at.arrived);
        lemma_after_read(at);
        lemma_join_prefix(after_message(at.arrived), w.kcp.arrived);
        assert(after.take(m.len() as int) =~= m);
    }
}

/// A session's socket.
pub struct SharedKcp {
    kcp: Kcp<KcpOutput>,
    queue: KcpOutputHandle,
    last_update: u64,
    is_closed: bool,
    send_task: bool,
    recv_buf: Vec<u8>,
    expired: bool,
    sent_first: bool,
    flush_write: bool,
    flush_ack_input: bool,
    allow_empty: bool,
}

impl View for SharedKcp {
    type V = SocketView;

    closed spec fn view(&self) -> SocketView {
        SocketView {
            kcp: kcp_state(self.kcp),
            last_update: self.last_update,
            is_closed: self.is_closed,
            send_task: self.send_task,
            recv_buf: self.recv_buf@,
            expired: self.expired,
            sent_first: self.sent_first,
            flush_write: self.flush_write,
            flush_ack_input: self.flush_ack_input,
            allow_empty: self.allow_empty,
        }
    }
}

impl SharedKcp {
    /// The machine takes payload, and its datagrams go to the queue of this socket.
    pub closed spec fn wf(&self) -> bool {
        &&& kcp_state(self.kcp).wf()
        &&& kcp_state(self.kcp).output.handle() == self.queue
    }

    /// What holds of a sound socket.
    pub(crate) proof fn lemma_wf(&self)
        requires
            self.wf(),
        ensures
            self@.kcp.wf(),
    {
    }

    /// What is known of a socket's time, flush and update is known of a machine in its state.
    pub(crate) proof fn lemma_machine(&self, current: u32)
        ensures
            exists|k: Kcp<KcpOutput>| kcp_state(k) == self@.kcp && #[trigger] kcp_check(k, current) == self.check(current),
    {
        assert(kcp_check(self.kcp, current) == self.check(current));
    }

    /// The milliseconds that the machine can be left alone, by the clock reading `current`.
    pub closed spec fn check(&self, current: u32) -> u32 {
        kcp_check(self.kcp, current)
    }

    /// The state in which a flush leaves the machine.
    pub closed spec fn after_flush(&self) -> KcpState {
        kcp_flushed(self.kcp)
    }

    /// The state in which an update at the clock reading `current` leaves the machine.
    pub closed spec fn after_update(&self, current: u32) -> KcpState {
        kcp_updated(self.kcp, current)
    }

    /// A session with `peer`, whose datagrams go to a queue of its own. `now` is the time in
    /// nanoseconds.
    pub fn new(c: &KcpConfig, conv: u32, peer: PeerAddr, stream: bool, now: u64) -> (res: SharedKcp)
        requires
            c.valid(),
        ensures
            res.wf(),
            res@ == SocketView::fresh(*c, conv, res@.kcp.output, stream, now),
            res@.kcp.output.to() == peer,
            res@.kcp.output.handle().start() == QueueView::fresh(),
    {
        SharedKcp::new_with_output(c, conv, KcpOutput::new(peer), stream, now)
    }

    /// A session whose datagrams go to `output`.
    pub fn new_with_output(c: &KcpConfig, conv: u32, output: KcpOutput, stream: bool, now: u64) -> (res: SharedKcp)
        requires
            c.valid(),
        ensures
            res.wf(),
            res@ == SocketView::fresh(*c, conv, output, stream, now),
    {
        let queue = output.queue();
        let mut kcp = if stream {
            kcp_new_stream(conv, output)
        } else {
            kcp_new(conv, output)
        };
        c.apply_config(&mut kcp);

        // Ask server to allocate one
        if conv == 0 {
            kcp_input_conv(&mut kcp);
        }
        SharedKcp {
            kcp,
            queue,
            last_update: now,
            is_closed: false,
            send_task: false,
            recv_buf: Vec::new(),
            expired: false,
            sent_first: false,
            flush_write: c.flush_write,
            flush_ack_input: c.flush_acks_input,
            allow_empty: c.allow_recv_empty_packet,
        }
    }

    /// The queue of this socket's datagrams, from which they are sent.
    pub fn output_queue(&self) -> (res: KcpOutputHandle)
        requires
            self.wf(),
        ensures
            res == self@.kcp.output.handle(),
    {
        self.queue.clone()
    }

    /// What follows an input on which the machine answered `answer`.
    pub fn after_input(&mut self, answer: KcpResult<usize>, now: u64) -> (res: Result<(), KcpError>)
        requires
            old(self).wf(),
        ensures
            final(self).wf(),
            res == input_answer(old(self)@, answer),
            final(self)@ == old(self)@.answered(answer, now),
    {
        match answer {
            Ok(_) => {},
            Err(kcp::Error::ConvInconsistent(_, _)) => {
                return Ok(());
            },
            Err(err) => {
                return Err(from_kcp(err));
            },
        }
        self.last_update = now;
        if self.flush_ack_input {
            match kcp_flush_ack(&mut self.kcp) {
                Ok(_) => {},
                Err(err) => {
                    return Err(from_kcp(err));
                },
            }
        }
        Ok(())
    }

    /// Call every time you got data from transmission
    pub fn input(&mut self, buf: &[u8], now: u64) -> (res: Result<(), KcpError>)
        requires
            old(self).wf(),
        ensures
            final(self).wf(),
            res == old(self)@.answer(buf@),
            final(self)@ == old(self)@.took(buf@, now),
    {
        let answer = kcp_input(&mut self.kcp, buf);
        proof {
            lemma_scan(kcp_state(old(self).kcp), buf@, 0);
        }
        self.after_input(answer, now)
    }

    /// Takes the first `n` bytes of the receive buffer as a datagram.
    fn input_self(&mut self, n: usize, now: u64) -> (res: Result<(), KcpError>)
        requires
            old(self).wf(),
            n <= old(self)@.recv_buf.len(),
        ensures
            final(self).wf(),
            res == old(self)@.answer(old(self)@.recv_buf.take(n as int)),
            final(self)@ == old(self)@.took(old(self)@.recv_buf.take(n as int), now),
    {
        let answer = kcp_input(&mut self.kcp, slice_subrange(self.recv_buf.as_slice(), 0, n));
        proof {
            lemma_scan(kcp_state(old(self).kcp), self.recv_buf@.take(n as int), 0);
        }
        self.after_input(answer, now)
    }

    /// The buffer into which the next datagram is received, at least a datagram long.
    pub fn recv_slot(&mut self) -> (slot: &mut [u8])
        requires
            old(self).wf(),
        ensures
            final(self).wf(),
            slot@ == if old(self)@.recv_buf.len() < old(self)@.kcp.mtu {
                old(self)@.recv_buf + Seq::new(
                    (old(self)@.kcp.mtu - old(self)@.recv_buf.len()) as nat,
                    |i: int| 0u8,
                )
            } else {
                old(self)@.recv_buf
            },
            final(self)@ == (SocketView { recv_buf: final(slot)@, ..old(self)@ }),
    {
        // Initialize with MTU
        let mtu = kcp_mtu(&self.kcp);
        if self.recv_buf.len() < mtu {
            self.recv_buf.resize(mtu, 0);
            assert(self.recv_buf@ =~= old(self).recv_buf@ + Seq::new(
                (mtu - old(self).recv_buf@.len()) as nat,
                |i: int| 0u8,
            )) by {
                assert(forall|i: int|
                    0 <= i < old(self).recv_buf@.len() ==> self.recv_buf@[i] == self.recv_buf@.subrange(
                        0,
                        old(self).recv_buf.len() as int,
                    )[i]);
            }
        }
        self.recv_buf.as_mut_slice()
    }

    /// Input what was received into the receive buffer, ignore WouldBlock
    pub fn fetch(&mut self, outcome: Received, now: u64) -> (res: Result<(), KcpError>)
        requires
            old(self).wf(),
            outcome is Data ==> outcome->Data_0 <= old(self)@.recv_buf.len(),
        ensures
            final(self).wf(),
            match outcome {
                Received::NotReady | Received::WouldBlock => res is Ok && final(self)@ == old(self)@,
                Received::Failed(err) => res == Err::<(), KcpError>(KcpError::IoError(err)) && final(self)@
                    == old(self)@,
                Received::Data(n) => {
                    let d = old(self)@.recv_buf.take(n as int);
                    &&& res == old(self)@.answer(d)
                    &&& final(self)@ == old(self)@.took(d, now)
                },
            },
    {
        match outcome {
            Received::NotReady => Ok(()),
            Received::WouldBlock => Ok(()),
            Received::Failed(err) => Err(KcpError::IoError(err)),
            Received::Data(n) => self.input_self(n, now),
        }
    }

    /// Call if you want to send some data
    pub fn send(&mut self, buf: &[u8], now: u64) -> (res: Result<usize, KcpError>)
        requires
            old(self).wf(),
            old(self)@.may_send(buf@.len()),
        ensures
            final(self).wf(),
            send_outcome(old(self)@, final(self)@, buf@, now, res),
    {
        if self.expired {
            return Err(KcpError::SessionExpired);
        }
        // If:
        //     1. Have sent the first packet (asking for conv)
        //     2. Too many pending packets

        if self.sent_first && (kcp_wait_snd(&self.kcp) >= kcp_snd_wnd(&self.kcp) as usize || kcp_waiting_conv(
            &self.kcp,
        )) {
            self.send_task = true;
            return Err(KcpError::TooManyPending);
        }
        proof {
            lemma_with_message(kcp_state(self.kcp), buf@);
        }
        let n = match kcp_send(&mut self.kcp, buf) {
            Ok(n) => n,
            Err(err) => {
                return Err(from_kcp(err));
            },
        };
        self.sent_first = true;
        self.last_update = now;
        if self.flush_write {
            match kcp_flush(&mut self.kcp) {
                Ok(_) => {},
                Err(err) => {
                    return Err(from_kcp(err));
                },
            }
        }
        Ok(n)
    }

    /// Whether `len` bytes may be sent: a packet that asks for a conversation number must fit in
    /// a segment.
    pub fn accepts(&self, len: usize) -> (res: bool)
        requires
            self.wf(),
        ensures
            res == self@.may_send(len as nat),
    {
        self.expired || self.sent_first || !kcp_waiting_conv(&self.kcp) || len <= kcp_mss(&self.kcp)
    }

    /// Sends some data if it may be sent; none is returned, and nothing changes, if it may not.
    pub fn try_send(&mut self, buf: &[u8], now: u64) -> (res: Option<Result<usize, KcpError>>)
        requires
            old(self).wf(),
        ensures
            final(self).wf(),
            res is Some <==> old(self)@.may_send(buf@.len()),
            res is None ==> final(self)@ == old(self)@,
            res is Some ==> send_outcome(old(self)@, final(self)@, buf@, now, res->Some_0),
    {
        if self.accepts(buf.len()) {
            Some(self.send(buf, now))
        } else {
            None
        }
    }

    /// Try to notify writable. Returns whether the sender has to be woken.
    pub fn try_notify_writable(&mut self) -> (wake: bool)
        requires
            old(self).wf(),
        ensures
            final(self).wf(),
            wake == (old(self)@.send_task && !old(self)@.congested()),
            final(self)@ == (SocketView { send_task: old(self)@.send_task && old(self)@.congested(), ..old(self)@ }),
    {
        if kcp_wait_snd(&self.kcp) < kcp_snd_wnd(&self.kcp) as usize && !kcp_waiting_conv(&self.kcp) {
            let wake = self.send_task;
            self.send_task = false;
            wake
        } else {
            false
        }
    }

    /// Call if you want to get some data
    /// Always call right after input
    ///
    /// Empty messages are skipped, unless the session hands them out. A session that has expired
    /// reads as ended: 0 bytes.
    pub fn recv(&mut self, buf: &mut [u8], now: u64) -> (res: Result<usize, KcpError>)
        requires
            old(self).wf(),
        ensures
            final(self).wf(),
            final(buf)@.len() == old(buf)@.len(),
            final(self)@ == old(self)@.read(old(buf)@, now).0,
            final(buf)@ == old(self)@.read(old(buf)@, now).1,
            res == old(self)@.read(old(buf)@, now).2,
            res is Ok ==> res->Ok_0 == old(self)@.next_message(now).1->Ok_0.len(),
    {
        if self.expired {
            return Ok(0);
        }
        self.skip_empty();
        proof {
            lemma_after_read(kcp_state(self.kcp));
        }
        match kcp_recv(&mut self.kcp, buf) {
            Ok(n) => {
                self.last_update = now;
                Ok(n)
            },
            Err(err) => Err(from_kcp(err)),
        }
    }

    /// Reads the empty messages before the next one that is handed out.
    fn skip_empty(&mut self)
        requires
            old(self).wf(),
        ensures
            final(self).wf(),
            final(self)@ == old(self)@.at_message(),
            *final(self) == (SharedKcp { kcp: final(self).kcp, ..*old(self) }),
    {
        if self.allow_empty {
            return;
        }
        let mut nothing: Vec<u8> = Vec::new();
        loop
            invariant
                old(self).wf(),
                self.wf(),
                *self == (SharedKcp { kcp: self.kcp, ..*old(self) }),
                !self.allow_empty,
                nothing@.len() == 0,
                kcp_state(self.kcp).past_empty() == kcp_state(old(self).kcp).past_empty(),
            decreases kcp_state(self.kcp).held(),
        {
            proof {
                lemma_message_fragments(kcp_state(self.kcp).arrived);
                lemma_after_read(kcp_state(self.kcp));
            }
            match kcp_recv(&mut self.kcp, nothing.as_mut_slice()) {
                Ok(_) => {},
                Err(_) => {
                    return;
                },
            }
        }
    }

    /// Check if a read would give a message now. The empty ones before it, which reads skip, are
    /// gone then.
    pub fn readable(&mut self) -> (res: bool)
        requires
            old(self).wf(),
        ensures
            final(self).wf(),
            final(self)@ == old(self)@.at_message(),
            res == complete(old(self)@.reading().arrived),
    {
        self.skip_empty();
        self.has_message()
    }

    /// Call if you want to flush all pending data in queue
    pub fn flush(&mut self, now: u64) -> (res: Result<(), KcpError>)
        requires
            old(self).wf(),
        ensures
            final(self).wf(),
            flush_outcome(old(self)@, final(self)@, now, res),
            res is Ok ==> final(self)@.kcp == old(self).after_flush(),
    {
        match kcp_flush(&mut self.kcp) {
            Ok(_) => {
                self.last_update = now;
                Ok(())
            },
            Err(err) => Err(from_kcp(err)),
        }
    }

    /// Tell me how long this session have no interaction, at time `now`
    pub fn elapsed(&self, now: u64) -> (res: u64)
        ensures
            res == if now < self@.last_update { 0 } else { now - self@.last_update },
    {
        if now < self.last_update {
            0
        } else {
            now - self.last_update
        }
    }

    /// Make this session expire, all read apis will return 0 (EOF)
    /// It will flush the buffer when it is called
    ///
    /// Returns whether the sender has to be woken, and how the flush ended.
    pub fn set_expired(&mut self) -> (res: (bool, Result<(), KcpError>))
        requires
            old(self).wf(),
        ensures
            final(self).wf(),
            res.0 == old(self)@.send_task,
            final(self)@ == (SocketView { kcp: final(self)@.kcp, expired: true, send_task: false, ..old(self)@ }),
            if old(self)@.kcp.updated {
                res.1 is Ok && flush_of(old(self)@.kcp, final(self)@.kcp) && final(self)@.kcp == old(
                    self,
                ).after_flush()
            } else {
                res.1 == Err::<(), KcpError>(KcpError::NeedUpdate) && final(self)@.kcp == old(self)@.kcp
            },
    {
        self.expired = true;
        let wake = self.send_task;
        self.send_task = false;
        let res = match kcp_flush(&mut self.kcp) {
            Ok(_) => Ok(()),
            Err(err) => Err(from_kcp(err)),
        };
        (wake, res)
    }

    /// `b` is this socket after an update at the clock reading `current`. Without a reading there is
    /// no update.
    pub open spec fn updates_to(&self, b: SharedKcp, current: Option<u32>) -> bool {
        match current {
            Some(current) => {
                &&& update_of(self@.kcp, b@.kcp, current)
                &&& b@.kcp == self.after_update(current)
                &&& b@ == (SocketView { kcp: b@.kcp, ..self@ })
            },
            None => b@ == self@,
        }
    }

    /// In how many milliseconds the next update is due, by the clock reading `later`. Without a
    /// reading nobody knows.
    pub open spec fn due(&self, later: Option<u32>) -> Result<u32, KcpError> {
        match later {
            Some(later) => Ok(self.check(later)),
            None => Err(KcpError::ClockBeforeEpoch),
        }
    }

    /// What updating this socket comes to: it becomes `b`. The clock was read as `current` before
    /// the update, and as `later` when it was done.
    pub open spec fn update_outcome(
        &self,
        b: SharedKcp,
        current: Option<u32>,
        later: Option<u32>,
        res: Result<u32, KcpError>,
    ) -> bool {
        &&& self.updates_to(b, current)
        &&& res == if current is None {
            Err::<u32, KcpError>(KcpError::ClockBeforeEpoch)
        } else {
            b.due(later)
        }
        &&& res is Ok ==> res->Ok_0 <= self@.kcp.interval
    }

    /// Updates the session at the clock reading `current`, if there is one.
    pub fn update_from(&mut self, current: Option<u32>) -> (res: Result<(), KcpError>)
        requires
            old(self).wf(),
        ensures
            final(self).wf(),
            old(self).updates_to(*final(self), current),
            match current {
                Some(_) => res is Ok,
                None => res == Err::<(), KcpError>(KcpError::ClockBeforeEpoch),
            },
    {
        match current {
            Some(current) => match kcp_update(&mut self.kcp, current) {
                Ok(_) => Ok(()),
                Err(err) => Err(from_kcp(err)),
            },
            None => Err(KcpError::ClockBeforeEpoch),
        }
    }

    /// In how many milliseconds to update the session again, by the clock reading `later`, if there
    /// is one.
    pub fn next_from(&self, later: Option<u32>) -> (res: Result<u32, KcpError>)
        requires
            self.wf(),
        ensures
            res == self.due(later),
            res is Ok ==> res->Ok_0 <= self@.kcp.interval,
    {
        match later {
            Some(later) => Ok(kcp_next_update(&self.kcp, later)),
            None => Err(KcpError::ClockBeforeEpoch),
        }
    }

    /// Updates the session at the clock reading `current`. Returns in how many milliseconds to
    /// call this function again, by the clock reading `later` when the update is done.
    pub fn update_at(&mut self, current: u32, later: u32) -> (res: Result<u32, KcpError>)
        requires
            old(self).wf(),
        ensures
            final(self).wf(),
            res == Ok::<u32, KcpError>(final(self).check(later)),
            final(self).check(later) <= old(self)@.kcp.interval,
            update_of(old(self)@.kcp, final(self)@.kcp, current),
            final(self)@.kcp == old(self).after_update(current),
            final(self)@ == (SocketView { kcp: final(self)@.kcp, ..old(self)@ }),
    {
        match self.update_from(Some(current)) {
            Ok(_) => self.next_from(Some(later)),
            Err(err) => Err(err),
        }
    }

    /// Call in every tick
    /// Returns when to call this function again, in milliseconds from now
    ///
    /// It fails only where the clock reads a time before the Unix epoch. The clock is read twice,
    /// before the update and after it.
    pub fn update(&mut self) -> (res: Result<u32, KcpError>)
        requires
            old(self).wf(),
        ensures
            final(self).wf(),
            final(self)@ == (SocketView { kcp: final(self)@.kcp, ..old(self)@ }),
            exists|current: Option<u32>, later: Option<u32>|
                is_reading(current) && is_reading(later) && #[trigger] old(self).update_outcome(
                    *final(self),
                    current,
                    later,
                    res,
                ),
            match res {
                Ok(next) => next <= old(self)@.kcp.interval && final(self)@.kcp.updated,
                Err(err) => err is ClockBeforeEpoch && exists|t: std::time::SystemTime| #[trigger]
                    system_time_nanos(t) < 0,
            },
    {
        let current = now_millis();
        match self.update_from(current) {
            Ok(_) => {},
            Err(err) => {
                assert(old(self).update_outcome(*self, current, current, Err(err)));
                return Err(err);
            },
        }
        let later = now_millis();
        let res = self.next_from(later);
        assert(old(self).update_outcome(*self, current, later, res));
        res
    }

    /// Check if send queue is empty
    pub fn has_waitsnd(&self) -> (res: bool)
        requires
            self.wf(),
        ensures
            res == (self@.kcp.wait_snd() == 0),
    {
        kcp_wait_snd(&self.kcp) == 0
    }

    /// Check if nothing is lost when the session ends: all that was sent is acknowledged
    pub fn can_close(&self) -> (res: bool)
        requires
            self.wf(),
        ensures
            res == (self@.kcp.wait_snd() == 0),
    {
        self.has_waitsnd()
    }

    /// Get mtu
    pub fn mtu(&self) -> (res: usize)
        ensures
            res == self@.kcp.mtu,
    {
        kcp_mtu(&self.kcp)
    }

    /// Set is close
    pub fn close(&mut self)
        requires
            old(self).wf(),
        ensures
            final(self).wf(),
            final(self)@ == (SocketView { is_closed: true, ..old(self)@ }),
            forall|current: u32| #[trigger] final(self).after_update(current) == old(self).after_update(current),
    {
        self.is_closed = true;
    }

    /// Check if it is closed
    pub fn is_closed(&self) -> (res: bool)
        ensures
            res == self@.is_closed,
    {
        self.is_closed
    }

    /// Check if it has expired
    pub fn is_expired(&self) -> (res: bool)
        ensures
            res == self@.expired,
    {
        self.expired
    }

    /// Check if it can read
    pub fn can_read(&self) -> (res: bool)
        ensures
            res == (self@.peek() != 0),
    {
        self.peeksize() != 0
    }

    /// Check if a message has arrived in full, be it an empty one
    pub fn has_message(&self) -> (res: bool)
        ensures
            res == complete(self@.kcp.arrived),
    {
        match kcp_peeksize(&self.kcp) {
            Ok(_) => true,
            Err(_) => false,
        }
    }

    /// Peek
    pub fn peeksize(&self) -> (res: usize)
        ensures
            res == self@.peek(),
    {
        match kcp_peeksize(&self.kcp) {
            Ok(n) => n,
            Err(_) => 0,
        }
    }

    /// Get conv
    pub fn conv(&self) -> (res: u32)
        ensures
            res == self@.kcp.conv,
    {
        kcp_conv(&self.kcp)
    }
}

} // verus!
