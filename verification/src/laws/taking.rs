//! Taking datagrams: what they change and what they leave.

use kcp::KcpResult;
use vstd::prelude::*;

use crate::engine::{complete, le32, lemma_past_empty, lemma_past_empty_in_order, lemma_scan, verdict, KcpState};
use crate::error::KcpError;
use crate::kcp_io::{served, ClientKcpIo, KcpIo, ServerKcpIo};
use crate::laws::reading::{
    a_server_read_loses_no_byte, at_next, held_bytes, lemma_at_next, message_first, only_received,
};
use crate::skcp::{
    a_message_is_read_as_it_came, lemma_reading, the_peer_sets_the_conversation, Received, SharedKcp, SocketView,
};

verus! {

/// `b` has the settings of `a`, and talks to the same peer.
pub open spec fn same_settings(a: KcpState, b: KcpState) -> bool {
    &&& b.output == a.output
    &&& b.mtu == a.mtu
    &&& b.mss == a.mss
    &&& b.snd_wnd == a.snd_wnd
    &&& b.rcv_wnd == a.rcv_wnd
    &&& b.nodelay == a.nodelay
    &&& b.min_rto == a.min_rto
    &&& b.interval == a.interval
    &&& b.fast_resend == a.fast_resend
    &&& b.no_cwnd == a.no_cwnd
    &&& b.stream == a.stream
}

/// What taking the datagram `d` promises, where `a` became `b`.
///
/// The machine makes of it what [`verdict`] says. A datagram that the machine took counts as an
/// interaction, and is acknowledged at once where that is wanted; one of another conversation is
/// passed over in silence, and one that is refused is reported, and neither counts. Nothing that was
/// to be read or sent is lost.
pub open spec fn takes(a: SocketView, b: SocketView, d: Seq<u8>, now: u64, res: Result<(), KcpError>) -> bool {
    let v = verdict(a.kcp, d);
    &&& b == (SocketView { kcp: b.kcp, last_update: b.last_update, ..a })
    &&& b.last_update == if v.result is Ok {
        now
    } else {
        a.last_update
    }
    &&& b.kcp == (KcpState { acks: b.kcp.acks, ..v.state })
    &&& b.kcp.acks == if v.result is Ok && a.flush_ack_input && a.kcp.updated {
        Seq::empty()
    } else {
        v.state.acks
    }
    &&& match v.result {
        Ok(_) => if a.flush_ack_input && !a.kcp.updated {
            res == Err::<(), KcpError>(KcpError::NeedUpdate)
        } else {
            res is Ok
        },
        Err(kcp::Error::ConvInconsistent(_, _)) => res is Ok,
        Err(kcp::Error::InvalidSegmentSize(n)) => res == Err::<(), KcpError>(KcpError::InvalidSegmentSize(n)),
        Err(kcp::Error::InvalidSegmentDataSize(n, m)) => res == Err::<(), KcpError>(
            KcpError::InvalidSegmentDataSize(n, m),
        ),
        Err(kcp::Error::UnsupportedCmd(c)) => res == Err::<(), KcpError>(KcpError::UnsupportedCmd(c)),
        Err(_) => res is Err,
    }
    &&& d.len() < 24 ==> b == a && res == Err::<(), KcpError>(KcpError::InvalidSegmentSize(d.len() as usize))
    &&& d.len() >= 24 && le32(d, 0) != a.kcp.conv && !a.kcp.waiting_conv ==> b == a && res is Ok
    &&& d.len() >= 24 && le32(d, 0) != a.kcp.conv && a.kcp.waiting_conv ==> b.kcp.conv == le32(d, 0)
        && !b.kcp.waiting_conv
    &&& same_settings(a.kcp, b.kcp)
    &&& b.kcp.queued == a.kcp.queued
    &&& b.kcp.snd_nxt == a.kcp.snd_nxt
    &&& b.kcp.updated == a.kcp.updated
    &&& b.kcp.current == a.kcp.current
    &&& b.kcp.in_flight.len() <= a.kcp.in_flight.len()
    &&& a.kcp.arrived.is_prefix_of(b.kcp.arrived)
}

/// What a session takes is what it promises.
#[verifier::rlimit(40)]
pub(crate) proof fn lemma_takes(a: SocketView, d: Seq<u8>, now: u64)
    ensures
        takes(a, a.took(d, now), d, now, a.answer(d)),
{
    lemma_scan(a.kcp, d, 0);
    if d.len() >= 24 && le32(d, 0) != a.kcp.conv && a.kcp.waiting_conv {
        the_peer_sets_the_conversation(a, a.took(d, now), d, now);
    }
}

/// A datagram is taken as [`takes`] says.
pub proof fn a_datagram_is_taken(s: &mut SharedKcp, d: &[u8], now: u64, res: Result<(), KcpError>)
    requires
        call_ensures(SharedKcp::input, (s, d, now), res),
    ensures
        takes(old(s)@, final(s)@, d@, now, res),
{
    lemma_takes(old(s)@, d@, now);
}

/// What follows a machine's answer to a datagram: one that it took counts as an interaction and is
/// acknowledged at once where that is wanted, one of another conversation is passed over in silence,
/// and every other error is reported.
pub proof fn an_answer_is_followed_up(s: &mut SharedKcp, answer: KcpResult<usize>, now: u64, res: Result<(), KcpError>)
    requires
        call_ensures(SharedKcp::after_input, (s, answer, now), res),
    ensures
        final(s)@ == (SocketView {
            kcp: (KcpState { acks: final(s)@.kcp.acks, ..old(s)@.kcp }),
            last_update: final(s)@.last_update,
            ..old(s)@
        }),
        final(s)@.last_update == if answer is Ok {
            now
        } else {
            old(s)@.last_update
        },
        final(s)@.kcp.acks == if answer is Ok && old(s)@.flush_ack_input && old(s)@.kcp.updated {
            Seq::empty()
        } else {
            old(s)@.kcp.acks
        },
        res is Ok <==> (answer is Ok && (old(s)@.flush_ack_input ==> old(s)@.kcp.updated)) || (answer matches Err(
            kcp::Error::ConvInconsistent(_, _),
        )),
        answer is Ok && res is Err ==> res == Err::<(), KcpError>(KcpError::NeedUpdate),
{
}

/// Fetching takes the datagram that was received, and nothing otherwise; a socket that fails is
/// reported, and one that would have to wait is not.
pub proof fn what_was_received_is_taken(s: &mut SharedKcp, outcome: Received, now: u64, res: Result<(), KcpError>)
    requires
        call_ensures(SharedKcp::fetch, (s, outcome, now), res),
    ensures
        match outcome {
            Received::Data(n) => takes(old(s)@, final(s)@, old(s)@.recv_buf.take(n as int), now, res),
            Received::Failed(err) => final(s)@ == old(s)@ && res == Err::<(), KcpError>(KcpError::IoError(err)),
            Received::NotReady => final(s)@ == old(s)@ && res is Ok,
            Received::WouldBlock => final(s)@ == old(s)@ && res is Ok,
        },
{
    if outcome is Data {
        lemma_takes(old(s)@, old(s)@.recv_buf.take(outcome->Data_0 as int), now);
    }
}

/// There is room for a datagram to be received, and what is received there is what is taken.
pub proof fn a_datagram_has_room(
    s: &mut SharedKcp,
    slot: &mut [u8],
    then: &mut SharedKcp,
    n: usize,
    now: u64,
    res: Result<(), KcpError>,
)
    requires
        call_ensures(SharedKcp::recv_slot, (s,), slot),
        *old(then) == *final(s),
        n <= final(slot)@.len(),
        call_ensures(SharedKcp::fetch, (then, Received::Data(n), now), res),
    ensures
        old(slot)@.len() >= old(s)@.kcp.mtu,
        old(s)@.recv_buf.is_prefix_of(old(slot)@),
        old(slot)@.len() > old(s)@.recv_buf.len() ==> old(slot)@.len() == old(s)@.kcp.mtu,
        final(s)@ == (SocketView { recv_buf: final(slot)@, ..old(s)@ }),
        takes(final(s)@, final(then)@, final(slot)@.take(n as int), now, res),
{
    what_was_received_is_taken(then, Received::Data(n), now, res);
}

/// Input through [`KcpIo`] is taken so, and leaves what was not read yet.
pub proof fn input_is_taken(io: &mut KcpIo, d: &[u8], now: u64, res: Result<(), KcpError>)
    requires
        call_ensures(KcpIo::input, (io, d, now), res),
    ensures
        takes(old(io)@.socket, final(io)@.socket, d@, now, res),
        final(io)@.unread == old(io)@.unread,
{
    lemma_takes(old(io)@.socket, d@, now);
}

/// So is input at the client's end.
pub proof fn a_client_takes_input(io: &mut ClientKcpIo, d: &[u8], now: u64, res: Result<(), KcpError>)
    requires
        call_ensures(ClientKcpIo::input, (io, d, now), res),
    ensures
        takes(old(io)@.socket, final(io)@.socket, d@, now, res),
        final(io)@.unread == old(io)@.unread,
{
    lemma_takes(old(io)@.socket, d@, now);
}

/// What serving the datagram `d` promises, where the session `a` became `b`: it is taken, and the
/// session, behind the empty messages that are not handed out, says whether a message is there. No
/// byte is taken from it.
pub open spec fn serves(a: SocketView, b: SocketView, d: Seq<u8>, now: u64, res: Result<bool, KcpError>) -> bool {
    match res {
        Ok(readable) => {
            &&& exists|mid: SocketView| #[trigger]
                takes(a, mid, d, now, Ok(())) && at_next(mid, b.kcp) && b == (SocketView { kcp: b.kcp, ..mid })
                    && only_received(mid, b) && held_bytes(mid) == held_bytes(b)
            &&& readable == message_first(b)
            &&& !readable ==> !complete(b.kcp.arrived)
        },
        Err(err) => takes(a, b, d, now, Err(err)),
    }
}

/// A session that was served is what it promises.
#[verifier::rlimit(40)]
pub(crate) proof fn lemma_serves(a: SocketView, d: Seq<u8>, now: u64, res: Result<bool, KcpError>)
    requires
        a.kcp.wf(),
        match a.answer(d) {
            Ok(_) => res == Ok::<bool, KcpError>(complete(served(a, d, now).kcp.arrived)),
            Err(err) => res == Err::<bool, KcpError>(err),
        },
    ensures
        serves(a, served(a, d, now), d, now, res),
{
    let mid = a.took(d, now);
    lemma_takes(a, d, now);
    lemma_scan(a.kcp, d, 0);
    lemma_reading(mid);
    lemma_past_empty(mid.kcp);
    lemma_past_empty_in_order(mid.kcp);
    if res is Ok {
        let b = served(a, d, now);
        assert(b == mid.at_message());
        lemma_at_next(mid);
        assert(takes(a, mid, d, now, Ok(())) && at_next(mid, b.kcp) && only_received(mid, b));
    }
}

/// A server's session serves the datagrams that come in, and leaves what was not read yet.
pub proof fn a_server_serves(io: &mut ServerKcpIo, d: &[u8], now: u64, res: Result<bool, KcpError>)
    requires
        old(io).wf(),
        call_ensures(ServerKcpIo::input, (io, d, now), res),
    ensures
        serves(old(io)@.socket, final(io)@.socket, d@, now, res),
        final(io)@.unread == old(io)@.unread,
{
    old(io).lemma_wf();
    lemma_serves(old(io)@.socket, d@, now, res);
}

/// What a server's session says of a message holds of the read that follows: it gives one exactly if
/// the session said so.
pub proof fn a_server_tells_when_there_is_a_message(
    io: &mut ServerKcpIo,
    d: &[u8],
    now: u64,
    readable: bool,
    then: &mut ServerKcpIo,
    buf: &mut [u8],
    later: u64,
    read: Result<usize, KcpError>,
)
    requires
        old(io).wf(),
        !old(io)@.socket.expired,
        old(io)@.unread.len() == 0,
        call_ensures(ServerKcpIo::input, (io, d, now), Ok::<bool, KcpError>(readable)),
        *old(then) == *final(io),
        call_ensures(ServerKcpIo::read, (then, buf, later), read),
    ensures
        readable <==> read is Ok,
{
    a_server_serves(io, d, now, Ok(readable));
    a_server_read_loses_no_byte(then, buf, later, read);
    if read is Ok {
        let v = final(io)@.socket;
        old(then).lemma_wf();
        lemma_past_empty(v.kcp);
    }
}

/// What comes in is what is read: a segment that carries the next message of the conversation, to a
/// session with nothing else to read, has the next read give its bytes.
pub proof fn what_comes_in_is_read(
    s: &mut SharedKcp,
    d: &[u8],
    now: u64,
    res: Result<(), KcpError>,
    then: &mut SharedKcp,
    buf: &mut [u8],
    later: u64,
    read: Result<usize, KcpError>,
)
    requires
        old(s).wf(),
        !old(s)@.expired,
        old(s)@.kcp.arrived.len() == 0,
        old(s)@.kcp.early.dom().is_empty(),
        old(s)@.kcp.rcv_wnd > 0,
        d@.len() > 24,
        le32(d@, 0) == old(s)@.kcp.conv,
        d@[4] == 81,
        d@[5] == 0,
        le32(d@, 12) == old(s)@.kcp.rcv_nxt,
        le32(d@, 20) == d@.len() - 24,
        call_ensures(SharedKcp::input, (s, d, now), res),
        *old(then) == *final(s),
        call_ensures(SharedKcp::recv, (then, buf, later), read),
    ensures
        final(s)@.last_update == now,
        if d@.len() - 24 <= old(buf)@.len() {
            &&& read == Ok::<usize, KcpError>((d@.len() - 24) as usize)
            &&& final(buf)@.take(d@.len() - 24) == d@.skip(24)
            &&& final(then)@.kcp.arrived.len() == 0
        } else {
            read == Err::<usize, KcpError>(KcpError::UserBufTooSmall)
        },
{
    old(s).lemma_wf();
    lemma_scan(old(s)@.kcp, d@, 0);
    a_message_is_read_as_it_came(old(s)@, d@, now, later);
    let m = d@.skip(24);
    if m.len() <= old(buf)@.len() {
        assert(final(buf)@.take(m.len() as int) =~= m);
    }
}

} // verus!
