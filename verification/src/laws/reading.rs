//! Reading: no byte that arrived is lost, made up or given twice.

use vstd::prelude::*;

use crate::engine::{
    complete, in_order, join, lemma_after_read, lemma_past_empty, lemma_past_empty_in_order, lemma_read_in_order,
    lemma_skips, message, skips_to, KcpState,
};
use crate::error::KcpError;
use crate::kcp_io::{
    is_next_power_of_two, next_power_of_two, reads_follow_the_bytes, ClientKcpIo, IoView, KcpIo, ServerKcpIo,
};
use crate::session::KcpSession;
use crate::skcp::{lemma_reading, SharedKcp, SocketView};
use crate::stream::{recv_outcome, KcpStream, Polled};

verus! {

/// The bytes that a session holds for its reader, in order up to the first gap.
pub open spec fn held_bytes(s: SocketView) -> Seq<u8> {
    join(in_order(s.kcp))
}

/// `b` differs from `a` in what was received and in the time of the last interaction alone.
pub open spec fn only_received(a: SocketView, b: SocketView) -> bool {
    b == (SocketView {
        kcp: (KcpState { arrived: b.kcp.arrived, early: b.kcp.early, rcv_nxt: b.kcp.rcv_nxt, ..a.kcp }),
        last_update: b.last_update,
        ..a
    })
}

/// Whether a session's first message is there in full and would be handed out.
pub open spec fn message_first(s: SocketView) -> bool {
    complete(s.kcp.arrived) && (s.allow_empty || message(s.kcp.arrived).len() > 0)
}

/// `s` is the machine of `a` at the message that the next read takes: behind the empty ones, unless
/// those are handed out.
pub open spec fn at_next(a: SocketView, s: KcpState) -> bool {
    exists|n: nat| #[trigger]
        skips_to(a.kcp, s, n) && if a.allow_empty {
            n == 0
        } else {
            complete(s.arrived) ==> message(s.arrived).len() > 0
        }
}

/// The message that a read takes is that at which the machine is.
pub(crate) proof fn lemma_at_next(v: SocketView)
    requires
        v.kcp.wf(),
    ensures
        at_next(v, v.reading()),
{
    lemma_past_empty(v.kcp);
    lemma_skips(v.kcp);
    if v.allow_empty {
        assert(skips_to(v.kcp, v.kcp, 0));
    } else {
        let n = choose|n: nat| #[trigger] skips_to(v.kcp, v.kcp.past_empty(), n);
        assert(skips_to(v.kcp, v.reading(), n));
    }
}

/// What a read into a buffer of the bytes `before` promises, where `a` became `b` and the buffer
/// `after`.
///
/// The bytes read and those still held are the bytes that were held: none is lost, none comes twice
/// and none is made up. What was left of a message comes first, then the next message, as much as
/// fits; a session that has expired reads as ended. There is nothing to read only if no message is
/// there, and then the read changes no byte.
pub open spec fn reads(
    a: IoView,
    b: IoView,
    before: Seq<u8>,
    after: Seq<u8>,
    now: u64,
    res: Result<usize, KcpError>,
) -> bool {
    &&& only_received(a.socket, b.socket)
    &&& after.len() == before.len()
    &&& match res {
        Ok(n) => {
            &&& n <= before.len()
            &&& after.skip(n as int) == before.skip(n as int)
            &&& a.unread + held_bytes(a.socket) == after.take(n as int) + (b.unread + held_bytes(b.socket))
            &&& n == before.len() || b.unread.len() == 0
        },
        Err(err) => {
            &&& after == before
            &&& a.unread.len() == 0
            &&& b.unread.len() == 0
            &&& held_bytes(b.socket) == held_bytes(a.socket)
            &&& b.socket.last_update == a.socket.last_update
            &&& !a.socket.expired
            &&& !message_first(a.socket)
            &&& at_next(a.socket, b.socket.kcp)
            &&& !complete(b.socket.kcp.arrived)
            &&& err == if b.socket.kcp.arrived.len() == 0 {
                KcpError::RecvQueueEmpty
            } else {
                KcpError::ExpectingFragment
            }
        },
    }
    &&& a.unread.len() > 0 ==> res is Ok && b.socket == a.socket
    &&& a.unread.len() == 0 && a.socket.expired ==> res == Ok::<usize, KcpError>(0) && b.unread.len() == 0
        && b.socket == a.socket
    &&& a.unread.len() == 0 && !a.socket.expired && res is Ok ==> {
        let whole = after.take(res->Ok_0 as int) + b.unread;
        &&& b.socket.last_update == now
        &&& whole.len() > 0 || a.socket.allow_empty
        &&& message_first(a.socket) ==> whole == message(a.socket.kcp.arrived)
        &&& exists|s: KcpState| #[trigger]
            at_next(a.socket, s) && complete(s.arrived) && whole == message(s.arrived) && b.socket.kcp
                == s.after_read()
    }
}

/// A read where bytes `m` are available, of which the rest stays.
proof fn lemma_reads_available(a: IoView, filled: IoView, m: Seq<u8>, before: Seq<u8>)
    requires
        before.len() <= usize::MAX,
        filled.unread == m,
        a.unread + held_bytes(a.socket) == m + held_bytes(filled.socket),
    ensures
        ({
            let n = if m.len() < before.len() { m.len() as int } else { before.len() as int };
            let after = m.take(n) + before.skip(n);
            &&& after.len() == before.len()
            &&& after.take(n) == m.take(n)
            &&& after.skip(n) == before.skip(n)
            &&& after.take(n) + m.skip(n) == m
            &&& a.unread + held_bytes(a.socket) == after.take(n) + (m.skip(n) + held_bytes(filled.socket))
        }),
{
    let n = if m.len() < before.len() { m.len() as int } else { before.len() as int };
    let after = m.take(n) + before.skip(n);
    assert(after.take(n) =~= m.take(n));
    assert(after.skip(n) =~= before.skip(n));
    assert(m.take(n) + m.skip(n) =~= m);
    assert(m + held_bytes(filled.socket) =~= m.take(n) + (m.skip(n) + held_bytes(filled.socket)));
}

/// What the next message, or its absence, leaves.
proof fn lemma_next_message(v: SocketView, now: u64)
    requires
        v.kcp.wf(),
        !v.expired,
    ensures
        ({
            let (w, res) = v.next_message(now);
            &&& only_received(v, w)
            &&& res is Ok ==> {
                &&& held_bytes(v) == res->Ok_0 + held_bytes(w)
                &&& w.last_update == now
                &&& res->Ok_0.len() > 0 || v.allow_empty
                &&& message_first(v) ==> res->Ok_0 == message(v.kcp.arrived)
                &&& at_next(v, v.reading())
                &&& complete(v.reading().arrived)
                &&& res->Ok_0 == message(v.reading().arrived)
                &&& w.kcp == v.reading().after_read()
            }
            &&& res is Err ==> {
                &&& held_bytes(w) == held_bytes(v)
                &&& w.last_update == v.last_update
                &&& !message_first(v)
                &&& at_next(v, w.kcp)
                &&& !complete(w.kcp.arrived)
                &&& res->Err_0 == if w.kcp.arrived.len() == 0 {
                    KcpError::RecvQueueEmpty
                } else {
                    KcpError::ExpectingFragment
                }
            }
        }),
{
    let at = v.reading();
    lemma_at_next(v);
    lemma_reading(v);
    lemma_past_empty(v.kcp);
    lemma_past_empty_in_order(v.kcp);
    lemma_read_in_order(at);
    lemma_after_read(at);
    assert(message_first(v) ==> at == v.kcp);
}

/// A read of bytes that were left of a message is what it promises.
#[verifier::rlimit(40)]
proof fn lemma_reads_rest(a: IoView, before: Seq<u8>, now: u64)
    requires
        a.unread.len() > 0 || a.socket.expired,
        before.len() <= usize::MAX,
    ensures
        reads(a, a.read(before, now).0, before, a.read(before, now).1, now, a.read(before, now).2),
{
    if a.unread.len() == 0 {
        assert(a.unread =~= Seq::empty());
    }
    assert(a.filled(now).0 =~= a);
    lemma_reads_available(a, a, a.unread, before);
}

/// A read where nothing was left of a message is what it promises.
#[verifier::rlimit(40)]
proof fn lemma_reads_next(a: IoView, before: Seq<u8>, now: u64)
    requires
        a.socket.kcp.wf(),
        a.unread.len() == 0,
        !a.socket.expired,
        before.len() <= usize::MAX,
    ensures
        reads(a, a.read(before, now).0, before, a.read(before, now).1, now, a.read(before, now).2),
{
    let (filled, available) = a.filled(now);
    lemma_next_message(a.socket, now);
    assert(a.unread + held_bytes(a.socket) =~= held_bytes(a.socket));
    if available is Ok {
        lemma_reads_available(a, filled, available->Ok_0, before);
    }
}

/// A read of a session with bytes left unread is what it promises.
proof fn lemma_reads(a: IoView, before: Seq<u8>, now: u64)
    requires
        a.socket.kcp.wf(),
        before.len() <= usize::MAX,
    ensures
        reads(a, a.read(before, now).0, before, a.read(before, now).1, now, a.read(before, now).2),
{
    if a.unread.len() > 0 || a.socket.expired {
        lemma_reads_rest(a, before, now);
    } else {
        lemma_reads_next(a, before, now);
    }
}

/// Reading through [`KcpIo`] loses no byte.
pub proof fn a_read_loses_no_byte(io: &mut KcpIo, buf: &mut [u8], now: u64, res: Result<usize, KcpError>)
    requires
        old(io).wf(),
        call_ensures(KcpIo::read, (io, buf, now), res),
    ensures
        reads(old(io)@, final(io)@, old(buf)@, final(buf)@, now, res),
{
    old(io).lemma_wf();
    assert(old(buf).len() == old(buf)@.len());
    lemma_reads(old(io)@, old(buf)@, now);
}

/// Neither does a read at the client's end.
pub proof fn a_client_read_loses_no_byte(io: &mut ClientKcpIo, buf: &mut [u8], now: u64, res: Result<usize, KcpError>)
    requires
        old(io).wf(),
        call_ensures(ClientKcpIo::read, (io, buf, now), res),
    ensures
        reads(old(io)@, final(io)@, old(buf)@, final(buf)@, now, res),
{
    old(io).lemma_wf();
    assert(old(buf).len() == old(buf)@.len());
    lemma_reads(old(io)@, old(buf)@, now);
}

/// Neither does a read at the server's end.
pub proof fn a_server_read_loses_no_byte(io: &mut ServerKcpIo, buf: &mut [u8], now: u64, res: Result<usize, KcpError>)
    requires
        old(io).wf(),
        call_ensures(ServerKcpIo::read, (io, buf, now), res),
    ensures
        reads(old(io)@, final(io)@, old(buf)@, final(buf)@, now, res),
{
    old(io).lemma_wf();
    assert(old(buf).len() == old(buf)@.len());
    lemma_reads(old(io)@, old(buf)@, now);
}

/// Filling the buffer of [`KcpIo`] reads nothing: it offers all that is unread of a message, or else
/// the next message, and keeps what it offers.
pub proof fn filling_offers_the_next_message(io: &mut KcpIo, now: u64, res: Result<&[u8], KcpError>)
    requires
        old(io).wf(),
        call_ensures(KcpIo::fill_buf, (io, now), res),
    ensures
        match res {
            Ok(available) => available@ == final(io)@.unread && reads(
                old(io)@,
                final(io)@,
                Seq::empty(),
                Seq::empty(),
                now,
                Ok(0),
            ),
            Err(err) => reads(old(io)@, final(io)@, Seq::empty(), Seq::empty(), now, Err(err)),
        },
{
    old(io).lemma_wf();
    let none = Seq::<u8>::empty();
    lemma_reads(old(io)@, none, now);
    if res is Ok {
        let m = old(io)@.filled(now).1->Ok_0;
        assert(m.skip(0) =~= m);
        assert(m.take(0) + none.skip(0) =~= none);
        assert(old(io)@.read(none, now).0 =~= old(io)@.filled(now).0);
    }
}

/// Consuming takes as many of the unread bytes as asked for, the first ones, and touches nothing
/// else.
pub proof fn consuming_takes_the_first_bytes(io: &mut KcpIo, amt: usize)
    requires
        call_ensures(KcpIo::consume, (io, amt), ()),
        old(io).wf(),
    ensures
        final(io)@.socket == old(io)@.socket,
        final(io)@.unread.is_suffix_of(old(io)@.unread),
        final(io)@.unread.len() == if amt < old(io)@.unread.len() {
            old(io)@.unread.len() - amt
        } else {
            0
        },
{
}

/// No byte is lost by a poll of a stream: on a [`recv_outcome`], the bytes that were there are those
/// that were read and those that still are.
#[verifier::rlimit(40)]
pub proof fn an_outcome_loses_no_byte(
    a: IoView,
    b: IoView,
    before: Seq<u8>,
    after: Seq<u8>,
    now: u64,
    res: (Polled, bool),
)
    requires
        a.socket.kcp.wf(),
        before.len() <= usize::MAX,
        recv_outcome(a, b, before, after, now, res),
    ensures
        match res.0 {
            Polled::Ready(Ok(n)) => {
                &&& n <= before.len()
                &&& (a.unread + join(a.socket.kcp.arrived)).is_prefix_of(
                    after.take(n as int) + (b.unread + join(b.socket.kcp.arrived)),
                )
                &&& a.unread + held_bytes(a.socket) == after.take(n as int) + (b.unread + held_bytes(b.socket))
            },
            Polled::Ready(Err(_)) => false,
            Polled::Pending => {
                &&& after == before
                &&& (a.unread + join(a.socket.kcp.arrived)).is_prefix_of(b.unread + join(b.socket.kcp.arrived))
                &&& a.unread + held_bytes(a.socket) == b.unread + held_bytes(b.socket)
            },
        },
{
    lemma_reads(a, before, now);
    reads_follow_the_bytes(a, before, now);
}

/// Polling a stream reads as [`reads`] says, and waits exactly where there is nothing to read. The
/// session is to be updated soon if a message was taken out of it.
#[verifier::rlimit(40)]
pub proof fn a_poll_loses_no_byte(
    stream: &mut KcpStream,
    session: &mut KcpSession,
    buf: &mut [u8],
    now: u64,
    res: (Polled, bool),
)
    requires
        old(stream).wf(),
        old(session).wf(),
        call_ensures(KcpStream::poll_recv, (stream, session, buf, now), res),
    ensures
        ({
            let a = IoView { socket: old(session)@.socket, unread: old(stream)@ };
            let b = IoView { socket: final(session)@.socket, unread: final(stream)@ };
            match res.0 {
                Polled::Ready(Ok(n)) => reads(a, b, old(buf)@, final(buf)@, now, Ok(n)) && res.1 == (
                a.unread.len() == 0),
                Polled::Ready(Err(_)) => false,
                Polled::Pending => !res.1 && exists|err: KcpError| #[trigger]
                    reads(a, b, old(buf)@, final(buf)@, now, Err(err)),
            }
        }),
        final(session)@.closed == old(session)@.closed,
        final(session)@.expire == old(session)@.expire,
        final(session)@.is_client == old(session)@.is_client,
{
    let a = IoView { socket: old(session)@.socket, unread: old(stream)@ };
    let b = IoView { socket: final(session)@.socket, unread: final(stream)@ };
    old(session).lemma_wf();
    assert(old(buf).len() == old(buf)@.len());
    lemma_reads(a, old(buf)@, now);
    let r = a.read(old(buf)@, now).2;
    if r is Err {
        assert(reads(a, b, old(buf)@, final(buf)@, now, Err(r->Err_0)));
    }
}

/// Receiving takes one message, whole, or none: the bytes received and those still held are the
/// bytes that were held. A message that does not fit stays, and there is none to receive only if none
/// is there.
#[verifier::rlimit(40)]
pub proof fn receiving_takes_whole_messages(s: &mut SharedKcp, buf: &mut [u8], now: u64, res: Result<usize, KcpError>)
    requires
        old(s).wf(),
        call_ensures(SharedKcp::recv, (s, buf, now), res),
    ensures
        only_received(old(s)@, final(s)@),
        final(buf)@.len() == old(buf)@.len(),
        match res {
            Ok(n) => {
                &&& n <= old(buf)@.len()
                &&& final(buf)@.skip(n as int) == old(buf)@.skip(n as int)
                &&& held_bytes(old(s)@) == final(buf)@.take(n as int) + held_bytes(final(s)@)
                &&& if old(s)@.expired {
                    n == 0 && final(s)@ == old(s)@
                } else {
                    &&& final(s)@.last_update == now
                    &&& n > 0 || old(s)@.allow_empty
                    &&& message_first(old(s)@) ==> final(buf)@.take(n as int) == message(old(s)@.kcp.arrived)
                    &&& exists|k: KcpState| #[trigger]
                        at_next(old(s)@, k) && complete(k.arrived) && final(buf)@.take(n as int) == message(k.arrived)
                            && final(s)@.kcp == k.after_read()
                }
            },
            Err(err) => {
                &&& final(buf)@ == old(buf)@
                &&& held_bytes(final(s)@) == held_bytes(old(s)@)
                &&& final(s)@.last_update == old(s)@.last_update
                &&& !old(s)@.expired
                &&& at_next(old(s)@, final(s)@.kcp)
                &&& match err {
                    KcpError::UserBufTooSmall => message_first(final(s)@) && message(final(s)@.kcp.arrived).len()
                        > old(buf)@.len() && (message_first(old(s)@) ==> final(s)@ == old(s)@),
                    KcpError::RecvQueueEmpty => !message_first(old(s)@) && final(s)@.kcp.arrived.len() == 0,
                    KcpError::ExpectingFragment => !message_first(old(s)@) && final(s)@.kcp.arrived.len() > 0
                        && !complete(final(s)@.kcp.arrived),
                    _ => false,
                }
            },
        },
{
    let v = old(s)@;
    old(s).lemma_wf();
    assert(old(buf).len() == old(buf)@.len());
    lemma_reading(v);
    lemma_past_empty(v.kcp);
    lemma_past_empty_in_order(v.kcp);
    assert(message_first(v) ==> v.reading() == v.kcp);
    lemma_at_next(v);
    if v.expired {
        assert(final(buf)@ =~= old(buf)@);
        assert(final(buf)@.take(0) + held_bytes(v) =~= held_bytes(v));
    } else {
        lemma_next_message(v, now);
        if res is Ok {
            let m = v.next_message(now).1->Ok_0;
            assert(final(buf)@.take(m.len() as int) =~= m);
            assert(final(buf)@.skip(m.len() as int) =~= old(buf)@.skip(m.len() as int));
        }
    }
}

/// Asking whether a session is readable skips the empty messages that are not handed out, takes no
/// byte, and is answered by whether a message is there then.
pub proof fn asking_skips_empty_messages(s: &mut SharedKcp, asked: bool)
    requires
        old(s).wf(),
        call_ensures(SharedKcp::readable, (s,), asked),
    ensures
        at_next(old(s)@, final(s)@.kcp),
        final(s)@ == (SocketView { kcp: final(s)@.kcp, ..old(s)@ }),
        only_received(old(s)@, final(s)@),
        held_bytes(final(s)@) == held_bytes(old(s)@),
        asked == complete(final(s)@.kcp.arrived),
        asked == message_first(final(s)@),
{
    let v = old(s)@;
    old(s).lemma_wf();
    lemma_at_next(v);
    lemma_reading(v);
    lemma_past_empty(v.kcp);
    lemma_past_empty_in_order(v.kcp);
}

/// Peeking is honest: it tells the size of the first message, 0 if none is there in full, and whether
/// one is there, be it empty.
pub proof fn peeking_is_honest(s: &SharedKcp, size: usize, can_read: bool, has_message: bool)
    requires
        call_ensures(SharedKcp::peeksize, (s,), size),
        call_ensures(SharedKcp::can_read, (s,), can_read),
        call_ensures(SharedKcp::has_message, (s,), has_message),
    ensures
        has_message == complete(s@.kcp.arrived),
        has_message ==> size == message(s@.kcp.arrived).len(),
        !has_message ==> size == 0,
        can_read == (size > 0),
{
}

/// Asking whether a session is readable takes no byte and no message from it, and the answer is that
/// of the read that follows: it gives a message, or none that fits, exactly if the session is
/// readable. To read at once comes to the same.
#[verifier::rlimit(40)]
pub proof fn asking_first_makes_no_difference(
    s: &mut SharedKcp,
    asked: bool,
    then: &mut SharedKcp,
    buf: &mut [u8],
    res: Result<usize, KcpError>,
    at_once: &mut SharedKcp,
    other: &mut [u8],
    first: Result<usize, KcpError>,
    now: u64,
)
    requires
        old(s).wf(),
        !old(s)@.expired,
        call_ensures(SharedKcp::readable, (s,), asked),
        *old(then) == *final(s),
        call_ensures(SharedKcp::recv, (then, buf, now), res),
        *old(at_once) == *old(s),
        old(other)@ == old(buf)@,
        call_ensures(SharedKcp::recv, (at_once, other, now), first),
    ensures
        only_received(old(s)@, final(s)@),
        final(s)@.last_update == old(s)@.last_update,
        held_bytes(final(s)@) == held_bytes(old(s)@),
        asked == message_first(final(s)@),
        asked <==> res is Ok || res == Err::<usize, KcpError>(KcpError::UserBufTooSmall),
        first == res,
        final(other)@ == final(buf)@,
        final(at_once)@ == final(then)@,
{
    let v = old(s)@;
    old(s).lemma_wf();
    lemma_reading(v);
    lemma_past_empty(v.kcp);
    lemma_past_empty_in_order(v.kcp);
    assert(final(s)@.reading() == v.reading());
}

/// Peeking tells what a read gives: its size is that of the message that a read into a buffer of that
/// size takes, and a session can read exactly if that is not 0.
pub proof fn peeking_tells_what_a_read_gives(
    s: &SharedKcp,
    size: usize,
    can_read: bool,
    has_message: bool,
    then: &mut SharedKcp,
    buf: &mut [u8],
    now: u64,
    res: Result<usize, KcpError>,
)
    requires
        s.wf(),
        !s@.expired,
        call_ensures(SharedKcp::peeksize, (s,), size),
        call_ensures(SharedKcp::can_read, (s,), can_read),
        call_ensures(SharedKcp::has_message, (s,), has_message),
        *old(then) == *s,
        call_ensures(SharedKcp::recv, (then, buf, now), res),
    ensures
        can_read == (size > 0),
        has_message == complete(s@.kcp.arrived),
        can_read ==> has_message,
        can_read && size <= old(buf)@.len() ==> res == Ok::<usize, KcpError>(size),
        can_read && size > old(buf)@.len() ==> res == Err::<usize, KcpError>(KcpError::UserBufTooSmall),
        !has_message ==> res is Err && res != Err::<usize, KcpError>(KcpError::UserBufTooSmall),
{
    s.lemma_wf();
    lemma_past_empty(s@.kcp);
}

/// The power of two that a buffer grows to holds the message, and is less than twice as long.
pub proof fn a_buffer_grows_enough(n: usize, res: usize)
    requires
        call_ensures(next_power_of_two, (n,), res),
    ensures
        n <= res,
        n > 1 ==> res / 2 < n,
        n <= 1 ==> res == 1,
{
    if is_next_power_of_two(n, res) {
        let e = choose|e: nat| #[trigger] vstd::arithmetic::power2::pow2(e) == res && (e == 0 || res / 2 < n);
        vstd::arithmetic::power2::lemma2_to64();
        if e > 0 {
            vstd::arithmetic::power2::lemma_pow2_unfold(e);
            vstd::arithmetic::power2::lemma_pow2_pos((e - 1) as nat);
            if e > 1 {
                vstd::arithmetic::power2::lemma_pow2_unfold((e - 1) as nat);
                vstd::arithmetic::power2::lemma_pow2_pos((e - 2) as nat);
            }
        }
    }
}

} // verus!
