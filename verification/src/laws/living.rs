//! Sessions: whom they wake, when they end, and the table of those that live.

use std::sync::Arc;

use vstd::prelude::*;

use crate::config::KcpConfig;
use crate::engine::{complete, lemma_past_empty, lemma_scan, verdict};
use crate::error::KcpError;
use crate::kcp_io::{ClientKcpIo, IoView, KcpIo, ServerKcpIo};
use crate::laws::making::{is_made, lemma_is_made};
use crate::laws::sending::sending_is_held_back_by_the_window;
use crate::laws::taking::{lemma_takes, takes};
use crate::laws::updating::{due_in, flushes, updates};
use crate::output::PeerAddr;
use crate::session::{
    lemma_first_free, KcpSession, KcpSessionManager, ManagerView, SessionAction, SessionEvent, SessionView,
};
use crate::skcp::{Received, SharedKcp, SocketView};
use crate::utils::duration_nanos;

verus! {

/// `b` is the session `a` but for its socket and for whether it is to end.
pub open spec fn same_session(a: SessionView, b: SessionView) -> bool {
    b.expire == a.expire && b.is_client == a.is_client
}

/// What feeding the datagram `d` to a session promises, where `a` became `b`: it is taken, and whoever
/// can go on is woken, at either end. The receiver is woken exactly if a message is there in full, and
/// the sender exactly if it waits and the window has a place for it.
pub open spec fn wakes(a: SessionView, b: SessionView, d: Seq<u8>, now: u64, action: SessionAction) -> bool {
    &&& same_session(a, b)
    &&& b.closed == a.closed
    &&& match action {
        SessionAction::Wake { sender, receiver } => {
            &&& takes(a.socket, (SocketView { send_task: a.socket.send_task, ..b.socket }), d, now, Ok(()))
            &&& receiver == complete(b.socket.kcp.arrived)
            &&& sender == (a.socket.send_task && b.socket.kcp.queued.len() + b.socket.kcp.in_flight.len()
                < b.socket.kcp.snd_wnd && !b.socket.kcp.waiting_conv)
            &&& b.socket.send_task == (a.socket.send_task && !sender)
        },
        SessionAction::Report(err) => takes(a.socket, b.socket, d, now, Err(err)),
        _ => false,
    }
}

/// What a turn of the timer promises, where the session `a` became `b`.
///
/// A session that was closed and has nothing left to send ends. So does one at the server's end whose
/// last interaction lies longer back than twice its expiry, and one whose last interaction lies
/// longer back than its expiry is closed. Every other one stays as it is, however late it is. A
/// session that goes on is updated, and one that ends is flushed, refuses what is sent and reads as
/// ended, and tells its number at the server's end.
pub open spec fn turns(
    a: SessionView,
    b: SessionView,
    now: u64,
    current: u32,
    later: u32,
    action: SessionAction,
) -> bool {
    let silent = now - a.socket.last_update;
    let done = a.closed && a.socket.kcp.queued.len() == 0 && a.socket.kcp.in_flight.len() == 0;
    let expires = !a.is_client && a.expire is Some;
    let gone = expires && silent > 2 * a.expire->Some_0;
    let overdue = expires && silent > a.expire->Some_0;
    &&& same_session(a, b)
    &&& match action {
        SessionAction::Finish { notify } => {
            &&& done || gone
            &&& b.closed == a.closed
            &&& notify == if a.is_client {
                None::<u32>
            } else {
                Some(a.socket.kcp.conv)
            }
            &&& b.socket == (SocketView { kcp: b.socket.kcp, expired: true, send_task: false, ..a.socket })
            &&& if a.socket.kcp.updated {
                flushes(a.socket.kcp, b.socket.kcp)
            } else {
                b.socket.kcp == a.socket.kcp
            }
        },
        SessionAction::Sleep(next) => {
            &&& !done && !gone
            &&& b.closed == (a.closed || overdue)
            &&& next <= a.socket.kcp.interval
            &&& due_in(b.socket.kcp, later, next)
            &&& b.socket == (SocketView { kcp: b.socket.kcp, ..a.socket })
            &&& updates(a.socket.kcp, b.socket.kcp, current)
        },
        _ => false,
    }
}

/// Whatever happens to a session, it answers as it should: datagrams are taken and wake who can go on,
/// turns of the timer keep or end it, and failures change nothing.
#[verifier::rlimit(40)]
pub proof fn a_session_answers(s: &mut KcpSession, event: SessionEvent<'_>, now: u64, action: SessionAction)
    requires
        call_ensures(KcpSession::step, (s, event, now), action),
    ensures
        match event {
            SessionEvent::Received(d) => wakes(old(s)@, final(s)@, d@, now, action),
            SessionEvent::Forwarded(d) => wakes(old(s)@, final(s)@, d@, now, action),
            SessionEvent::RecvFailed => action is Continue && final(s)@ == old(s)@,
            SessionEvent::ListenerGone => action is Continue && final(s)@ == old(s)@,
            SessionEvent::Tick { current, later } => turns(old(s)@, final(s)@, now, current, later, action),
        },
{
    match event {
        SessionEvent::Received(d) => {
            lemma_wakes(old(s)@, final(s)@, d@, now, action);
        },
        SessionEvent::Forwarded(d) => {
            lemma_wakes(old(s)@, final(s)@, d@, now, action);
        },
        SessionEvent::Tick { current, later } => {
            final(s).lemma_machine(later);
        },
        _ => {},
    }
}

/// What a datagram makes of a session is what it promises.
proof fn lemma_wakes(a: SessionView, b: SessionView, d: Seq<u8>, now: u64, action: SessionAction)
    requires
        a.fed(b, d, now, action),
    ensures
        wakes(a, b, d, now, action),
{
    lemma_takes(a.socket, d, now);
    lemma_scan(a.socket.kcp, d, 0);
    assert((SocketView { send_task: a.socket.send_task, ..b.socket }) =~= a.socket.took(d, now));
}

/// A session that is fed directly answers the same.
pub proof fn a_fed_session_answers(s: &mut KcpSession, d: &[u8], now: u64, action: SessionAction)
    requires
        call_ensures(KcpSession::input, (s, d, now), action),
    ensures
        wakes(old(s)@, final(s)@, d@, now, action),
{
    lemma_wakes(old(s)@, final(s)@, d@, now, action);
}

/// Nobody who can go on is left waiting: after a datagram came, a reader for whom a read gives a
/// message was woken, and so was a sender who waited and whose send is not held back.
#[verifier::rlimit(40)]
pub proof fn who_can_go_on_is_woken(
    s: &mut KcpSession,
    event: SessionEvent<'_>,
    now: u64,
    sender: bool,
    receiver: bool,
    io: &mut SharedKcp,
    buf: &mut [u8],
    read: Result<usize, KcpError>,
    out: &mut SharedKcp,
    data: &[u8],
    sent: Result<usize, KcpError>,
    then: u64,
)
    requires
        call_ensures(KcpSession::step, (s, event, now), SessionAction::Wake { sender, receiver }),
        old(io).wf(),
        old(io)@ == final(s)@.socket,
        call_ensures(SharedKcp::recv, (io, buf, then), read),
        old(out).wf(),
        old(out)@ == final(s)@.socket,
        call_ensures(SharedKcp::send, (out, data, then), sent),
        !final(s)@.socket.expired,
        final(s)@.socket.sent_first,
    ensures
        read is Ok || read == Err::<usize, KcpError>(KcpError::UserBufTooSmall) ==> receiver,
        old(s)@.socket.send_task && sent != Err::<usize, KcpError>(KcpError::TooManyPending) ==> sender,
        sender ==> sent != Err::<usize, KcpError>(KcpError::TooManyPending),
{
    a_session_answers(s, event, now, SessionAction::Wake { sender, receiver });
    sending_is_held_back_by_the_window(out, data, then, sent);
    old(io).lemma_wf();
    let v = old(io)@;
    lemma_past_empty(v.kcp);
}

/// A session whose peer was heard within its expiry goes on, as does every session that does not
/// expire, unless it was closed: it is neither ended nor closed.
pub proof fn a_session_in_use_goes_on(
    s: &mut KcpSession,
    now: u64,
    current: u32,
    later: u32,
    action: SessionAction,
)
    requires
        call_ensures(KcpSession::step, (s, SessionEvent::Tick { current, later }, now), action),
        !old(s)@.closed,
        old(s)@.is_client || old(s)@.expire is None || now - old(s)@.socket.last_update <= old(s)@.expire->Some_0,
    ensures
        action is Sleep,
        !final(s)@.closed,
        final(s)@.socket.expired == old(s)@.socket.expired,
        final(s)@.socket.last_update == old(s)@.socket.last_update,
{
}

/// An interaction keeps a session: one that took a datagram goes on at every turn of its timer that
/// comes within its expiry, whatever the clock reads.
pub proof fn a_datagram_keeps_a_session(
    s: &mut KcpSession,
    event: SessionEvent<'_>,
    d: Seq<u8>,
    now: u64,
    first: SessionAction,
    later: &mut KcpSession,
    then: u64,
    current: u32,
    reading: u32,
    second: SessionAction,
)
    requires
        (event matches SessionEvent::Received(b) && b@ == d) || (event matches SessionEvent::Forwarded(b) && b@ == d),
        call_ensures(KcpSession::step, (s, event, now), first),
        verdict(old(s)@.socket.kcp, d).result is Ok,
        !old(s)@.closed,
        *old(later) == *final(s),
        call_ensures(KcpSession::step, (later, SessionEvent::Tick { current, later: reading }, then), second),
        old(s)@.expire is Some ==> then - now <= old(s)@.expire->Some_0,
    ensures
        second is Sleep,
        !final(later)@.closed,
{
    a_session_answers(s, event, now, first);
    a_session_answers(later, SessionEvent::Tick { current, later: reading }, then, second);
}

/// A server's session that is silent for longer than twice its expiry ends, and whoever then sends or
/// reads learns of it.
pub proof fn a_silent_session_ends(
    s: &mut KcpSession,
    now: u64,
    current: u32,
    later: u32,
    action: SessionAction,
)
    requires
        call_ensures(KcpSession::step, (s, SessionEvent::Tick { current, later }, now), action),
        !old(s)@.is_client,
        old(s)@.expire is Some,
        now - old(s)@.socket.last_update > 2 * old(s)@.expire->Some_0,
    ensures
        action == (SessionAction::Finish { notify: Some(old(s)@.socket.kcp.conv) }),
        final(s)@.socket.expired,
{
}

/// Closing a session has it end as soon as nothing is left to be sent, and does nothing else.
pub proof fn a_closed_session_ends_when_all_is_sent(
    s: &mut KcpSession,
    then: &mut KcpSession,
    now: u64,
    current: u32,
    later: u32,
    action: SessionAction,
)
    requires
        call_ensures(KcpSession::close, (s,), ()),
        *old(then) == *final(s),
        call_ensures(KcpSession::step, (then, SessionEvent::Tick { current, later }, now), action),
    ensures
        final(s)@ == (SessionView { closed: true, ..old(s)@ }),
        old(s)@.socket.kcp.queued.len() + old(s)@.socket.kcp.in_flight.len() == 0 ==> action is Finish,
        old(s)@.socket.kcp.queued.len() + old(s)@.socket.kcp.in_flight.len() > 0 && old(s)@.is_client ==> action is Sleep,
{
    a_session_answers(then, SessionEvent::Tick { current, later }, now, action);
}

/// A session is made of its socket, its expiry and its end.
pub proof fn a_session_is_made(
    socket: SharedKcp,
    expire: Option<std::time::Duration>,
    is_client: bool,
    s: KcpSession,
    told: bool,
)
    requires
        call_ensures(KcpSession::new, (socket, expire, is_client), s),
        call_ensures(KcpSession::is_client, (&s,), told),
    ensures
        s@.socket == socket@,
        !s@.closed,
        s@.expire is Some <==> expire is Some,
        expire is Some ==> s@.expire == Some(duration_nanos(expire->Some_0)),
        s@.is_client == is_client,
        told == is_client,
{
}

/// What is reached through a session, or through reading and writing on one, is its socket, and what is
/// done to that is done to it.
pub proof fn a_sessions_socket_is_reached(
    s: &mut KcpSession,
    a: &mut SharedKcp,
    io: &mut KcpIo,
    b: &mut SharedKcp,
    client: &mut ClientKcpIo,
    c: &mut KcpIo,
    server: &mut ServerKcpIo,
    d: &mut KcpIo,
)
    requires
        call_ensures(KcpSession::kcp_socket, (s,), a),
        call_ensures(KcpIo::socket, (io,), b),
        call_ensures(ClientKcpIo::io, (client,), c),
        call_ensures(ServerKcpIo::io, (server,), d),
    ensures
        old(a)@ == old(s)@.socket,
        final(s)@ == (SessionView { socket: final(a)@, ..old(s)@ }),
        old(b)@ == old(io)@.socket,
        final(io)@ == (IoView { socket: final(b)@, ..old(io)@ }),
        old(c)@ == old(client)@,
        final(client)@ == final(c)@,
        old(d)@ == old(server)@,
        final(server)@ == final(d)@,
{
}

/// What giving out the conversation number `conv` promises: it is free, no number that is free comes
/// between it and the one given out last, going up and round, and only that it was given out is noted.
pub open spec fn gives_out<T>(a: ManagerView<T>, b: ManagerView<T>, conv: u32) -> bool {
    &&& conv != 0
    &&& !a.sessions.dom().contains(conv)
    &&& forall|c: u32|
        c != 0 && (if a.last < conv {
            a.last < c < conv
        } else {
            c > a.last || c < conv
        }) ==> #[trigger] a.sessions.dom().contains(c)
    &&& b.sessions == a.sessions
    &&& b.last == conv
}

/// Conversation numbers are given out in turn, and only free ones.
pub proof fn free_numbers_are_given_out<T>(m: &mut KcpSessionManager<T>, conv: u32)
    requires
        call_ensures(KcpSessionManager::<T>::alloc_conv, (m,), conv),
    ensures
        gives_out(old(m)@, final(m)@, conv),
{
    lemma_gives_out(old(m)@, conv);
}

/// The first free number is one to be given out.
proof fn lemma_gives_out<T>(a: ManagerView<T>, conv: u32)
    requires
        exists|n: nat| #[trigger] a.first_free(conv, n),
    ensures
        gives_out(a, (ManagerView { last: conv, ..a }), conv),
{
    let n = choose|n: nat| #[trigger] a.first_free(conv, n);
    assert forall|c: u32|
        c != 0 && (if a.last < conv {
            a.last < c < conv
        } else {
            c > a.last || c < conv
        }) implies #[trigger] a.sessions.dom().contains(c) by {
        lemma_first_free(a, conv, n, c);
    }
}

/// A number is given out exactly if one is free.
pub proof fn a_number_is_given_out_if_one_is_free<T>(
    m: &mut KcpSessionManager<T>,
    res: Option<u32>,
    told: &KcpSessionManager<T>,
    free: bool,
)
    requires
        call_ensures(KcpSessionManager::<T>::try_alloc_conv, (m,), res),
        call_ensures(KcpSessionManager::<T>::has_free_conv, (told,), free),
    ensures
        match res {
            Some(conv) => gives_out(old(m)@, final(m)@, conv),
            None => final(m)@ == old(m)@ && forall|c: u32|
                c != 0 ==> #[trigger] old(m)@.sessions.dom().contains(c),
        },
        !free <==> forall|c: u32| c != 0 ==> #[trigger] told@.sessions.dom().contains(c),
{
    if res is Some {
        lemma_gives_out(old(m)@, res->Some_0);
    }
}

/// A table begins empty, says which conversations have a session, and forgets the one that it is told
/// to.
pub proof fn a_table_keeps_its_sessions<T>(
    fresh: KcpSessionManager<T>,
    m: &KcpSessionManager<T>,
    conv: u32,
    has: bool,
    less: &mut KcpSessionManager<T>,
)
    requires
        call_ensures(KcpSessionManager::<T>::new, (), fresh),
        call_ensures(KcpSessionManager::<T>::has_conv, (m, conv), has),
        call_ensures(KcpSessionManager::<T>::close_conv, (less, conv), ()),
    ensures
        fresh@.sessions.dom().is_empty(),
        fresh@.last == 0,
        has <==> m@.sessions.dom().contains(conv),
        !final(less)@.sessions.dom().contains(conv),
        forall|c: u32|
            c != conv ==> (#[trigger] final(less)@.sessions.dom().contains(c) <==> old(less)@.sessions.dom().contains(c)),
        forall|c: u32|
            c != conv && old(less)@.sessions.dom().contains(c) ==> #[trigger] final(less)@.sessions[c] == old(
                less,
            )@.sessions[c],
        final(less)@.last == old(less)@.last,
{
}

/// A conversation has one session: whoever asks for it gets the one that there is, and only where there
/// is none a new one is made, for the peer and under the number that were asked for.
pub proof fn a_conversation_has_one_session<T, F: FnOnce(KcpSession) -> Arc<T>>(
    m: &mut KcpSessionManager<T>,
    config: &KcpConfig,
    conv: u32,
    peer: PeerAddr,
    now: u64,
    spawn: F,
    res: (Arc<T>, bool),
)
    requires
        old(m)@.sessions.dom().contains(conv) || config.valid(),
        call_ensures(KcpSessionManager::<T>::get_or_create::<F>, (m, config, conv, peer, now, spawn), res),
    ensures
        res.1 == !old(m)@.sessions.dom().contains(conv),
        !res.1 ==> res.0 == old(m)@.sessions[conv] && final(m)@ == old(m)@,
        res.1 ==> exists|s: KcpSession| #[trigger]
            call_ensures(spawn, (s,), res.0) && is_made(s@.socket, *config, conv, config.stream, now)
                && s@.socket.kcp.output.to() == peer && !s@.is_client && !s@.closed && (config.session_expire is Some
                ==> s@.expire == Some(duration_nanos(config.session_expire->Some_0))) && (config.session_expire is None
                ==> s@.expire is None),
        final(m)@.sessions.dom().contains(conv),
        final(m)@.sessions[conv] == res.0,
        forall|c: u32|
            c != conv ==> (#[trigger] final(m)@.sessions.dom().contains(c) <==> old(m)@.sessions.dom().contains(c)),
        forall|c: u32|
            c != conv && old(m)@.sessions.dom().contains(c) ==> #[trigger] final(m)@.sessions[c] == old(
                m,
            )@.sessions[c],
        final(m)@.last == old(m)@.last,
{
    if res.1 {
        let s = choose|s: KcpSession| #[trigger]
            s@.is_new(*config, conv, peer, now) && call_ensures(spawn, (s,), res.0);
        lemma_is_made(s@.socket, *config, conv, s@.socket.kcp.output, config.stream, now);
        assert(call_ensures(spawn, (s,), res.0));
    }
}

} // verus!
