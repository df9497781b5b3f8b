//! Sending: the window holds a sender back, and what is queued is whole.

use vstd::prelude::*;

use crate::engine::{
    a_message_is_read_as_it_was_sent, after_message, complete, flushed, join, lemma_join_split, lemma_pieces,
    lemma_with_message, message, KcpState,
};
use crate::error::KcpError;
use crate::kcp_io::{ClientKcpIo, KcpIo, ServerKcpIo};
use crate::session::KcpSession;
use crate::skcp::{send_outcome, SharedKcp, SocketView};
use crate::stream::{polled, KcpStream, Polled};
use crate::laws::updating::flushes;

verus! {

/// The bytes that the last waiting fragment of a machine can take of a message, in stream mode.
pub open spec fn room_in_last(s: KcpState) -> int {
    if s.stream && s.queued.len() > 0 && s.queued.last().1.len() < s.mss {
        s.mss - s.queued.last().1.len()
    } else {
        0
    }
}

/// `n` segments were added for `len` bytes that did not fit into the last waiting fragment: as many
/// as hold them, and no more. In stream mode no segment is needed for none.
pub open spec fn enough_segments(s: KcpState, len: int, n: int) -> bool {
    if s.stream && len <= 0 {
        n == 0
    } else {
        &&& n >= 1
        &&& len <= n * s.mss
        &&& n > 1 ==> (n - 1) * s.mss < len
    }
}

/// What queueing the message `buf` promises, where the machine `a` became `b`: its bytes are behind
/// those that wait, and unless messages are packed together it is a message of its own, whole.
pub open spec fn queues(a: KcpState, b: KcpState, buf: Seq<u8>) -> bool {
    let added = b.queued.skip(a.queued.len() as int);
    &&& b == (KcpState { queued: b.queued, ..a })
    &&& join(b.queued) == join(a.queued) + buf
    &&& !a.stream ==> {
        &&& a.queued.is_prefix_of(b.queued)
        &&& complete(added)
        &&& message(added) == buf
        &&& after_message(added).len() == 0
    }
}

/// What sending `buf` promises, where `a` became `b`.
///
/// A session that has expired refuses. The send window holds the sender back: once something was
/// sent, as long as as many segments are queued or out as it has places, or the conversation number
/// is still to come, a message is refused, the sender waits and nothing else changes. A message of
/// more than 127 segments is refused. Every other one is queued, whole and behind what waits, and
/// counts as an interaction.
pub open spec fn sends(a: SocketView, b: SocketView, buf: Seq<u8>, now: u64, res: Result<usize, KcpError>) -> bool {
    let held_back = a.sent_first && (a.kcp.queued.len() + a.kcp.in_flight.len() >= a.kcp.snd_wnd || a.kcp.waiting_conv);
    let rest = buf.len() - room_in_last(a.kcp);
    if a.expired {
        res == Err::<usize, KcpError>(KcpError::SessionExpired) && b == a
    } else if held_back {
        res == Err::<usize, KcpError>(KcpError::TooManyPending) && b == (SocketView { send_task: true, ..a })
    } else if rest > 127 * a.kcp.mss {
        &&& res == Err::<usize, KcpError>(KcpError::UserBufTooBig)
        &&& b == (SocketView { kcp: (KcpState { queued: b.kcp.queued, ..a.kcp }), ..a })
        &&& b.kcp.queued.len() == a.kcp.queued.len()
        &&& join(b.kcp.queued) == join(a.kcp.queued) + buf.take(room_in_last(a.kcp))
    } else {
        &&& res == if a.flush_write && !a.kcp.updated {
            Err::<usize, KcpError>(KcpError::NeedUpdate)
        } else {
            Ok::<usize, KcpError>(buf.len() as usize)
        }
        &&& b == (SocketView { kcp: b.kcp, sent_first: true, last_update: now, ..a })
        &&& enough_segments(
            a.kcp,
            rest,
            b.kcp.queued.len() + b.kcp.in_flight.len() - a.kcp.queued.len() - a.kcp.in_flight.len(),
        )
        &&& b.kcp == (KcpState {
            queued: b.kcp.queued,
            in_flight: b.kcp.in_flight,
            snd_nxt: b.kcp.snd_nxt,
            acks: b.kcp.acks,
            ..a.kcp
        })
        &&& if a.flush_write && a.kcp.updated {
            &&& join(b.kcp.queued).is_suffix_of(join(a.kcp.queued) + buf)
            &&& exists|w: KcpState| #[trigger] queues(a.kcp, w, buf) && flushes(w, b.kcp)
        } else {
            queues(a.kcp, b.kcp, buf)
        }
    }
}

/// How many segments a message takes, and when they are too many.
proof fn lemma_segments(s: KcpState, len: nat)
    requires
        s.wf(),
    ensures
        s.tail_room() == room_in_last(s),
        s.too_big(len) == (len - room_in_last(s) > 127 * s.mss),
        enough_segments(s, len - room_in_last(s), s.segments_for(len) as int),
{
    lemma_pieces((len - s.packed(len)) as nat, s.mss as nat);
    assert(127 * s.mss >= 0);
}

/// A message that was queued is whole.
proof fn lemma_queued_whole(s: KcpState, buf: Seq<u8>)
    requires
        s.wf(),
        !s.stream,
        !s.too_big(buf.len()),
    ensures
        ({
            let q = s.with_message(buf).queued;
            let added = q.skip(s.queued.len() as int);
            &&& s.queued.is_prefix_of(q)
            &&& complete(added)
            &&& message(added) == buf
            &&& after_message(added).len() == 0
        }),
{
    let added = s.with_message(buf).queued.skip(s.queued.len() as int);
    let t = KcpState { arrived: added, ..s };
    assert(added + Seq::empty() =~= added);
    a_message_is_read_as_it_was_sent(s, buf, t, Seq::empty());
}

/// What a flush leaves of a queue is its end.
proof fn lemma_flushed_bytes(w: KcpState, b: KcpState)
    requires
        flushed(w, b),
    ensures
        join(b.queued).is_suffix_of(join(w.queued)),
        w.in_flight.is_prefix_of(b.in_flight),
        b.queued.len() + b.in_flight.len() == w.queued.len() + w.in_flight.len(),
        b.acks.len() == 0,
{
    lemma_join_split(w.queued, w.queued.len() - b.queued.len());
}

/// What sending comes to is what it promises.
#[verifier::rlimit(40)]
proof fn lemma_sends(a: SocketView, b: SocketView, buf: Seq<u8>, now: u64, res: Result<usize, KcpError>)
    requires
        a.kcp.wf(),
        buf.len() <= usize::MAX,
        send_outcome(a, b, buf, now, res),
    ensures
        sends(a, b, buf, now, res),
{
    lemma_segments(a.kcp, buf.len());
    if !a.expired && !a.blocked() {
        lemma_with_message(a.kcp, buf);
        if !a.kcp.too_big(buf.len()) {
            let w = a.kcp.with_message(buf);
            if !a.kcp.stream {
                lemma_queued_whole(a.kcp, buf);
            }
            assert(queues(a.kcp, w, buf));
            if a.flush_write && a.kcp.updated {
                lemma_flushed_bytes(w, b.kcp);
                assert(flushes(w, b.kcp));
            }
        }
    }
}

/// Sending is held back by the window, and loses or adds no byte.
pub proof fn sending_is_held_back_by_the_window(s: &mut SharedKcp, buf: &[u8], now: u64, res: Result<usize, KcpError>)
    requires
        old(s).wf(),
        call_ensures(SharedKcp::send, (s, buf, now), res),
    ensures
        sends(old(s)@, final(s)@, buf@, now, res),
{
    old(s).lemma_wf();
    assert(buf.len() == buf@.len());
    lemma_sends(old(s)@, final(s)@, buf@, now, res);
}

/// A send is tried only if the packet that asks for a conversation number fits in a segment.
pub proof fn trying_to_send(s: &mut SharedKcp, buf: &[u8], now: u64, res: Option<Result<usize, KcpError>>)
    requires
        old(s).wf(),
        call_ensures(SharedKcp::try_send, (s, buf, now), res),
    ensures
        match res {
            Some(res) => sends(old(s)@, final(s)@, buf@, now, res),
            None => {
                &&& final(s)@ == old(s)@
                &&& old(s)@.kcp.waiting_conv
                &&& !old(s)@.sent_first
                &&& !old(s)@.expired
                &&& buf@.len() > old(s)@.kcp.mss
            },
        },
        old(s)@.kcp.waiting_conv && !old(s)@.sent_first && !old(s)@.expired && buf@.len() > old(s)@.kcp.mss ==> res is None,
{
    old(s).lemma_wf();
    assert(buf.len() == buf@.len());
    if res is Some {
        lemma_sends(old(s)@, final(s)@, buf@, now, res->Some_0);
    }
}

/// A session accepts for sending what a try sends.
pub proof fn accepting_is_trying(
    s: &SharedKcp,
    len: usize,
    accepts: bool,
    then: &mut SharedKcp,
    buf: &[u8],
    now: u64,
    res: Option<Result<usize, KcpError>>,
)
    requires
        call_ensures(SharedKcp::accepts, (s, len), accepts),
        *old(then) == *s,
        buf@.len() == len,
        call_ensures(SharedKcp::try_send, (then, buf, now), res),
    ensures
        accepts == (res is Some),
{
}

/// Writing is sending, and leaves what was not read yet.
pub proof fn writing_is_sending(io: &mut KcpIo, buf: &[u8], now: u64, res: Result<usize, KcpError>)
    requires
        old(io).wf(),
        call_ensures(KcpIo::write, (io, buf, now), res),
    ensures
        sends(old(io)@.socket, final(io)@.socket, buf@, now, res),
        final(io)@.unread == old(io)@.unread,
{
    old(io).lemma_wf();
    assert(buf.len() == buf@.len());
    lemma_sends(old(io)@.socket, final(io)@.socket, buf@, now, res);
}

/// So it is at the client's end.
pub proof fn a_client_writes_by_sending(io: &mut ClientKcpIo, buf: &[u8], now: u64, res: Result<usize, KcpError>)
    requires
        old(io).wf(),
        call_ensures(ClientKcpIo::write, (io, buf, now), res),
    ensures
        sends(old(io)@.socket, final(io)@.socket, buf@, now, res),
        final(io)@.unread == old(io)@.unread,
{
    old(io).lemma_wf();
    assert(buf.len() == buf@.len());
    lemma_sends(old(io)@.socket, final(io)@.socket, buf@, now, res);
}

/// So it is at the server's end.
pub proof fn a_server_writes_by_sending(io: &mut ServerKcpIo, buf: &[u8], now: u64, res: Result<usize, KcpError>)
    requires
        old(io).wf(),
        call_ensures(ServerKcpIo::write, (io, buf, now), res),
    ensures
        sends(old(io)@.socket, final(io)@.socket, buf@, now, res),
        final(io)@.unread == old(io)@.unread,
{
    old(io).lemma_wf();
    assert(buf.len() == buf@.len());
    lemma_sends(old(io)@.socket, final(io)@.socket, buf@, now, res);
}

/// Polling a stream to send is sending: it waits exactly where the window holds the sender back, and
/// has the session updated soon otherwise.
pub proof fn a_poll_sends(stream: &mut KcpStream, session: &mut KcpSession, buf: &[u8], now: u64, res: (Polled, bool))
    requires
        old(stream).wf(),
        old(session).wf(),
        call_ensures(KcpStream::poll_send, (stream, session, buf, now), res),
    ensures
        match res.0 {
            Polled::Ready(r) => res.1 && r != Err::<usize, KcpError>(KcpError::TooManyPending) && sends(
                old(session)@.socket,
                final(session)@.socket,
                buf@,
                now,
                r,
            ),
            Polled::Pending => !res.1 && sends(
                old(session)@.socket,
                final(session)@.socket,
                buf@,
                now,
                Err(KcpError::TooManyPending),
            ),
        },
        final(stream)@ == old(stream)@,
        final(session)@.closed == old(session)@.closed,
        final(session)@.expire == old(session)@.expire,
        final(session)@.is_client == old(session)@.is_client,
{
    let a = old(session)@.socket;
    let b = final(session)@.socket;
    old(session).lemma_wf();
    assert(buf.len() == buf@.len());
    let r = choose|r: Result<usize, KcpError>| #[trigger] send_outcome(a, b, buf@, now, r) && res.0 == polled(r);
    lemma_sends(a, b, buf@, now, r);
}

/// A sender who waits is woken as soon as a send would no longer be held back, and not before: after
/// the sender was woken, a send is not held back, and after it was not, one is.
pub proof fn a_sender_is_woken_when_it_can_go_on(
    s: &mut SharedKcp,
    wake: bool,
    then: &mut SharedKcp,
    buf: &[u8],
    now: u64,
    res: Result<usize, KcpError>,
)
    requires
        old(s).wf(),
        old(s)@.send_task,
        old(s)@.sent_first,
        !old(s)@.expired,
        call_ensures(SharedKcp::try_notify_writable, (s,), wake),
        *old(then) == *final(s),
        call_ensures(SharedKcp::send, (then, buf, now), res),
    ensures
        wake <==> res != Err::<usize, KcpError>(KcpError::TooManyPending),
        final(s)@.send_task == !wake,
        final(s)@.kcp == old(s)@.kcp,
{
    sending_is_held_back_by_the_window(then, buf, now, res);
}

/// Nobody is woken who does not wait, and asking changes nothing else.
pub proof fn only_who_waits_is_woken(s: &mut SharedKcp, wake: bool)
    requires
        call_ensures(SharedKcp::try_notify_writable, (s,), wake),
    ensures
        wake <==> old(s)@.send_task && !final(s)@.send_task,
        wake <==> old(s)@.send_task && old(s)@.kcp.queued.len() + old(s)@.kcp.in_flight.len() < old(s)@.kcp.snd_wnd && !old(
            s,
        )@.kcp.waiting_conv,
        final(s)@ == (SocketView { send_task: final(s)@.send_task, ..old(s)@ }),
{
}

} // verus!
