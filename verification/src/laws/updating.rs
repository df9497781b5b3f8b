//! Flushing, updating and ending, and what is told of a session.

use kcp::Kcp;
use vstd::prelude::*;

use crate::engine::{complete, kcp_check, kcp_flushed, kcp_state, kcp_updated, message, KcpState};
use crate::error::KcpError;
use crate::kcp_io::{ClientKcpIo, IoView, KcpIo, ServerKcpIo};
use crate::laws::living::same_session;
use crate::output::{KcpOutput, KcpOutputHandle};
use crate::session::KcpSession;
use crate::skcp::{SharedKcp, SocketView};
use crate::stream::KcpStream;
use crate::utils::{is_reading, millis_since_epoch, now_millis, reading, system_time_nanos};

verus! {

/// What a flush moves, where the machine `a` became `b`: some of the fragments that waited, first in
/// line first, went out under the next numbers, and the acknowledgements that were due too. How many
/// segments wait or are out is as before.
pub open spec fn moves_out(a: KcpState, b: KcpState) -> bool {
    &&& b.queued.is_suffix_of(a.queued)
    &&& a.in_flight.is_prefix_of(b.in_flight)
    &&& b.queued.len() + b.in_flight.len() == a.queued.len() + a.in_flight.len()
    &&& forall|i: int|
        0 <= i < b.in_flight.len() - a.in_flight.len() ==> (#[trigger] b.in_flight[a.in_flight.len() + i]) as int == (
        a.snd_nxt + i) % 0x1_0000_0000
    &&& b.snd_nxt as int == (a.snd_nxt + b.in_flight.len() - a.in_flight.len()) % 0x1_0000_0000
    &&& b.acks.len() == 0
    &&& b == (KcpState {
        queued: b.queued,
        in_flight: b.in_flight,
        snd_nxt: b.snd_nxt,
        acks: b.acks,
        updated: b.updated,
        current: b.current,
        ..a
    })
}

/// What flushing promises, where the machine `a` became `b`: it is what the crate's flush makes of a
/// machine in that state.
pub open spec fn flushes(a: KcpState, b: KcpState) -> bool {
    &&& moves_out(a, b)
    &&& b.updated == a.updated
    &&& b.current == a.current
    &&& exists|m: Kcp<KcpOutput>| kcp_state(m) == a && b == #[trigger] kcp_flushed(m)
}

/// What an update at the clock reading `current` promises, where the machine `a` became `b`: its clock
/// is set, and it was flushed or nothing else happened. The first update flushes. It is what the
/// crate's update makes of a machine in that state.
pub open spec fn updates(a: KcpState, b: KcpState, current: u32) -> bool {
    &&& b.updated
    &&& b.current == current
    &&& moves_out(a, b) || a.updated && b == (KcpState { updated: b.updated, current: b.current, ..a })
    &&& exists|m: Kcp<KcpOutput>| kcp_state(m) == a && b == #[trigger] kcp_updated(m, current)
}

/// `next` is the time, in milliseconds, that the crate would leave a machine in state `s` alone, by
/// the clock reading `later`.
pub open spec fn due_in(s: KcpState, later: u32, next: u32) -> bool {
    exists|m: Kcp<KcpOutput>| kcp_state(m) == s && next == #[trigger] kcp_check(m, later)
}

/// A flush of an updated session counts as an interaction and flushes; one of a session that was never
/// updated does nothing.
pub proof fn flushing_sends_in_order(s: &mut SharedKcp, now: u64, res: Result<(), KcpError>)
    requires
        call_ensures(SharedKcp::flush, (s, now), res),
    ensures
        if old(s)@.kcp.updated {
            &&& res is Ok
            &&& flushes(old(s)@.kcp, final(s)@.kcp)
            &&& final(s)@ == (SocketView { kcp: final(s)@.kcp, last_update: now, ..old(s)@ })
        } else {
            res == Err::<(), KcpError>(KcpError::NeedUpdate) && final(s)@ == old(s)@
        },
{
}

/// A session that is made to expire is flushed, if it can be, and has its sender woken. It is not
/// closed by it, and what it holds stays.
pub proof fn expiring_flushes_and_wakes(s: &mut SharedKcp, res: (bool, Result<(), KcpError>))
    requires
        call_ensures(SharedKcp::set_expired, (s,), res),
    ensures
        final(s)@.expired,
        !final(s)@.send_task,
        res.0 == old(s)@.send_task,
        res.1 is Ok <==> old(s)@.kcp.updated,
        res.1 is Ok ==> flushes(old(s)@.kcp, final(s)@.kcp),
        res.1 is Err ==> final(s)@.kcp == old(s)@.kcp && res.1 == Err::<(), KcpError>(KcpError::NeedUpdate),
        final(s)@.last_update == old(s)@.last_update,
        final(s)@.is_closed == old(s)@.is_closed,
        final(s)@.sent_first == old(s)@.sent_first,
{
}

/// Once a session has expired, nothing is sent on it, and it reads as ended.
pub proof fn an_expired_session_is_over(
    s: &mut SharedKcp,
    wake: (bool, Result<(), KcpError>),
    sender: &mut SharedKcp,
    data: &[u8],
    sent: Result<usize, KcpError>,
    reader: &mut SharedKcp,
    buf: &mut [u8],
    read: Result<usize, KcpError>,
    now: u64,
)
    requires
        call_ensures(SharedKcp::set_expired, (s,), wake),
        *old(sender) == *final(s),
        call_ensures(SharedKcp::send, (sender, data, now), sent),
        *old(reader) == *final(s),
        call_ensures(SharedKcp::recv, (reader, buf, now), read),
    ensures
        sent == Err::<usize, KcpError>(KcpError::SessionExpired),
        final(sender)@ == old(sender)@,
        read == Ok::<usize, KcpError>(0),
        final(reader)@ == old(reader)@,
        final(buf)@ == old(buf)@,
{
    assert(final(buf)@ =~= old(buf)@);
}

/// An update at given clock readings sets the clock, loses nothing, is no interaction, and is due
/// again after no more than the flush interval.
pub proof fn updating_loses_nothing(s: &mut SharedKcp, current: u32, later: u32, res: Result<u32, KcpError>)
    requires
        call_ensures(SharedKcp::update_at, (s, current, later), res),
    ensures
        updates(old(s)@.kcp, final(s)@.kcp, current),
        final(s)@ == (SocketView { kcp: final(s)@.kcp, ..old(s)@ }),
        res is Ok,
        res->Ok_0 <= old(s)@.kcp.interval,
        due_in(final(s)@.kcp, later, res->Ok_0),
{
    final(s).lemma_machine(later);
}

/// An update by the system's clock does the same at the reading of the clock, and fails only where the
/// clock stands before its epoch.
pub proof fn updating_by_the_clock_loses_nothing(s: &mut SharedKcp, res: Result<u32, KcpError>)
    requires
        call_ensures(SharedKcp::update, (s,), res),
    ensures
        final(s)@ == (SocketView { kcp: final(s)@.kcp, ..old(s)@ }),
        final(s)@.kcp == old(s)@.kcp || updates(old(s)@.kcp, final(s)@.kcp, final(s)@.kcp.current),
        match res {
            Ok(next) => {
                &&& next <= old(s)@.kcp.interval
                &&& updates(old(s)@.kcp, final(s)@.kcp, final(s)@.kcp.current)
                &&& exists|t: std::time::SystemTime| #[trigger]
                    system_time_nanos(t) >= 0 && call_ensures(std::time::SystemTime::now, (), t) && final(
                        s)@.kcp.current as int == (system_time_nanos(t) / 1_000_000) % 0x1_0000_0000
                &&& exists|later: u32| #[trigger] due_in(final(s)@.kcp, later, next) && is_reading(Some(later))
            },
            Err(err) => err is ClockBeforeEpoch && exists|t: std::time::SystemTime| #[trigger]
                system_time_nanos(t) < 0 && call_ensures(std::time::SystemTime::now, (), t),
        },
{
    let (current, later) = choose|current: Option<u32>, later: Option<u32>|
        is_reading(current) && is_reading(later) && #[trigger] old(s).update_outcome(*final(s), current, later, res);
    if res is Ok {
        let t = choose|t: std::time::SystemTime| #[trigger]
            reading(t) == current && call_ensures(std::time::SystemTime::now, (), t);
        assert(system_time_nanos(t) >= 0);
        let l = later->Some_0;
        final(s).lemma_machine(l);
        assert(due_in(final(s)@.kcp, l, res->Ok_0));
    } else {
        let m = if current is None { current } else { later };
        let t = choose|t: std::time::SystemTime| #[trigger]
            reading(t) == m && call_ensures(std::time::SystemTime::now, (), t);
        assert(system_time_nanos(t) < 0);
    }
}

/// What the steps of an update come to: no update and no time without a clock reading.
pub proof fn an_update_needs_a_reading(
    s: &mut SharedKcp,
    current: Option<u32>,
    res: Result<(), KcpError>,
    then: &SharedKcp,
    later: Option<u32>,
    next: Result<u32, KcpError>,
)
    requires
        call_ensures(SharedKcp::update_from, (s, current), res),
        call_ensures(SharedKcp::next_from, (then, later), next),
    ensures
        match current {
            Some(current) => res is Ok && updates(old(s)@.kcp, final(s)@.kcp, current) && final(s)@ == (SocketView {
                kcp: final(s)@.kcp,
                ..old(s)@
            }),
            None => res == Err::<(), KcpError>(KcpError::ClockBeforeEpoch) && final(s)@ == old(s)@,
        },
        next is Ok <==> later is Some,
        next is Ok ==> next->Ok_0 <= then@.kcp.interval && due_in(then@.kcp, later->Some_0, next->Ok_0),
        next is Err ==> next == Err::<u32, KcpError>(KcpError::ClockBeforeEpoch),
{
    if later is Some {
        then.lemma_machine(later->Some_0);
    }
}

/// The time without interaction counts from the last one, and an interaction ends it.
pub proof fn idleness_counts_from_the_last_interaction(s: &SharedKcp, now: u64, res: u64)
    requires
        call_ensures(SharedKcp::elapsed, (s, now), res),
    ensures
        now >= s@.last_update ==> res == now - s@.last_update,
        now <= s@.last_update ==> res == 0,
{
}

/// Whether anything waits to be sent, what the machine was given, and what was noted of a session.
pub proof fn what_is_told_of_a_session(
    s: &SharedKcp,
    empty: bool,
    can_close: bool,
    mtu: usize,
    conv: u32,
    closed: bool,
    expired: bool,
    queue: KcpOutputHandle,
)
    requires
        call_ensures(SharedKcp::has_waitsnd, (s,), empty),
        call_ensures(SharedKcp::can_close, (s,), can_close),
        call_ensures(SharedKcp::mtu, (s,), mtu),
        call_ensures(SharedKcp::conv, (s,), conv),
        call_ensures(SharedKcp::is_closed, (s,), closed),
        call_ensures(SharedKcp::is_expired, (s,), expired),
        s.wf(),
        call_ensures(SharedKcp::output_queue, (s,), queue),
    ensures
        queue == s@.kcp.output.handle(),
        empty <==> s@.kcp.queued.len() == 0 && s@.kcp.in_flight.len() == 0,
        can_close <==> empty,
        mtu == s@.kcp.mtu,
        conv == s@.kcp.conv,
        closed == s@.is_closed,
        expired == s@.expired,
{
}

/// Closing a session notes that and nothing else.
pub proof fn closing_is_noted(s: &mut SharedKcp)
    requires
        call_ensures(SharedKcp::close, (s,), ()),
    ensures
        final(s)@.is_closed,
        final(s)@ == (SocketView { is_closed: true, ..old(s)@ }),
{
}

/// A stream is flushed as its session is, and the session is updated soon after it was.
pub proof fn a_poll_flushes(stream: &mut KcpStream, session: &mut KcpSession, now: u64, res: (Result<(), KcpError>, bool))
    requires
        call_ensures(KcpStream::poll_flush, (stream, session, now), res),
    ensures
        ({
            let a = old(session)@.socket;
            let b = final(session)@.socket;
            if a.kcp.updated {
                &&& res.0 is Ok
                &&& res.1
                &&& flushes(a.kcp, b.kcp)
                &&& b == (SocketView { kcp: b.kcp, last_update: now, ..a })
            } else {
                &&& res.0 == Err::<(), KcpError>(KcpError::NeedUpdate)
                &&& !res.1
                &&& b == a
            }
        }),
        final(stream)@ == old(stream)@,
        final(session)@.closed == old(session)@.closed,
        same_session(old(session)@, final(session)@),
{
}

/// Reading and writing begin with the session that is given, and a client's is updated once.
pub proof fn reading_and_writing_begin(
    kcp: SharedKcp,
    io: KcpIo,
    server: ServerKcpIo,
    current: u32,
    client: Result<ClientKcpIo, KcpError>,
)
    requires
        call_ensures(KcpIo::new, (kcp,), io),
        call_ensures(ServerKcpIo::new, (kcp,), server),
        call_ensures(ClientKcpIo::new, (kcp, current), client),
    ensures
        io@.socket == kcp@ && io@.unread.len() == 0,
        server@.socket == kcp@ && server@.unread.len() == 0,
        client matches Ok(c) && c@.unread.len() == 0 && updates(kcp@.kcp, c@.socket.kcp, current) && c@.socket == (
        SocketView { kcp: c@.socket.kcp, ..kcp@ }),
{
}

/// What is told of a session through [`KcpIo`], and closing it there.
pub proof fn what_is_told_by_io(
    io: &KcpIo,
    mtu: usize,
    can_read: bool,
    remaining: usize,
    client: &ClientKcpIo,
    client_mtu: usize,
    closed: &mut KcpIo,
    server: &mut ServerKcpIo,
)
    requires
        io.wf(),
        call_ensures(KcpIo::mtu, (io,), mtu),
        call_ensures(KcpIo::can_read, (io,), can_read),
        call_ensures(KcpIo::buf_remaining, (io,), remaining),
        call_ensures(ClientKcpIo::mtu, (client,), client_mtu),
        call_ensures(KcpIo::shutdown, (closed,), ()),
        call_ensures(ServerKcpIo::shutdown, (server,), ()),
    ensures
        mtu == io@.socket.kcp.mtu,
        can_read <==> complete(io@.socket.kcp.arrived) && message(io@.socket.kcp.arrived).len() > 0,
        remaining == io@.unread.len(),
        client_mtu == client@.socket.kcp.mtu,
        final(closed)@.socket == (SocketView { is_closed: true, ..old(closed)@.socket }),
        final(closed)@.unread == old(closed)@.unread,
        final(server)@.socket == (SocketView { is_closed: true, ..old(server)@.socket }),
        final(server)@.unread == old(server)@.unread,
{
}

/// What flushing a session promises: one that was updated is flushed, which counts as an interaction,
/// and one that was not is left alone.
pub open spec fn flushes_socket(a: SocketView, b: SocketView, now: u64, res: Result<(), KcpError>) -> bool {
    if a.kcp.updated {
        &&& res is Ok
        &&& flushes(a.kcp, b.kcp)
        &&& b == (SocketView { kcp: b.kcp, last_update: now, ..a })
    } else {
        res == Err::<(), KcpError>(KcpError::NeedUpdate) && b == a
    }
}

/// Flushing through any of the readers and writers is flushing the session.
pub proof fn flushing_is_flushing_the_session(
    io: &mut KcpIo,
    first: Result<(), KcpError>,
    client: &mut ClientKcpIo,
    second: Result<(), KcpError>,
    server: &mut ServerKcpIo,
    third: Result<(), KcpError>,
    now: u64,
)
    requires
        call_ensures(KcpIo::flush, (io, now), first),
        call_ensures(ClientKcpIo::flush, (client, now), second),
        call_ensures(ServerKcpIo::flush, (server, now), third),
    ensures
        flushes_socket(old(io)@.socket, final(io)@.socket, now, first),
        final(io)@.unread == old(io)@.unread,
        flushes_socket(old(client)@.socket, final(client)@.socket, now, second),
        final(client)@.unread == old(client)@.unread,
        flushes_socket(old(server)@.socket, final(server)@.socket, now, third),
        final(server)@.unread == old(server)@.unread,
{
}

/// A server's session is updated as any is, ends as any does, is done once it was closed and all is
/// sent, and counts its idleness from the last interaction.
pub proof fn a_server_session_lives_and_ends(
    io: &mut ServerKcpIo,
    current: u32,
    later: u32,
    next: Result<u32, KcpError>,
    over: &mut ServerKcpIo,
    sender: bool,
    told: &ServerKcpIo,
    done: bool,
    now: u64,
    idle: u64,
)
    requires
        call_ensures(ServerKcpIo::update_at, (io, current, later), next),
        call_ensures(ServerKcpIo::expire, (over,), sender),
        call_ensures(ServerKcpIo::is_done, (told,), done),
        call_ensures(ServerKcpIo::elapsed, (told, now), idle),
    ensures
        next is Ok && next->Ok_0 <= old(io)@.socket.kcp.interval,
        due_in(final(io)@.socket.kcp, later, next->Ok_0),
        updates(old(io)@.socket.kcp, final(io)@.socket.kcp, current),
        final(io)@.socket == (SocketView { kcp: final(io)@.socket.kcp, ..old(io)@.socket }),
        final(io)@.unread == old(io)@.unread,
        ends_session(old(over)@, final(over)@),
        sender == old(over)@.socket.send_task,
        done <==> told@.socket.is_closed && told@.socket.kcp.queued.len() == 0 && told@.socket.kcp.in_flight.len() == 0,
        now >= told@.socket.last_update ==> idle == now - told@.socket.last_update,
        now < told@.socket.last_update ==> idle == 0,
{
    final(io).lemma_machine(later);
}

/// What ending a session promises, where `a` became `b`: it refuses what is sent and reads as ended,
/// its sender no longer waits, and what waited is flushed if it can be.
pub open spec fn ends_session(a: IoView, b: IoView) -> bool {
    &&& b.unread == a.unread
    &&& b.socket == (SocketView { kcp: b.socket.kcp, expired: true, send_task: false, ..a.socket })
    &&& a.socket.kcp.updated ==> flushes(a.socket.kcp, b.socket.kcp)
    &&& !a.socket.kcp.updated ==> b.socket.kcp == a.socket.kcp
}

/// The clock is read in milliseconds from its epoch, in 32 bits, and not before it.
pub proof fn the_clock_is_read(t: std::time::SystemTime, res: Option<u32>, now: Option<u32>)
    requires
        call_ensures(millis_since_epoch, (t,), res),
        call_ensures(now_millis, (), now),
    ensures
        res is None <==> system_time_nanos(t) < 0,
        res is Some ==> res->Some_0 as int == (system_time_nanos(t) / 1_000_000) % 0x1_0000_0000,
        exists|t: std::time::SystemTime| #[trigger]
            call_ensures(std::time::SystemTime::now, (), t) && match now {
                Some(now) => system_time_nanos(t) >= 0 && now as int == (system_time_nanos(t) / 1_000_000)
                    % 0x1_0000_0000,
                None => system_time_nanos(t) < 0,
            },
{
    let start = choose|t: std::time::SystemTime| #[trigger]
        reading(t) == now && call_ensures(std::time::SystemTime::now, (), t);
    assert(call_ensures(std::time::SystemTime::now, (), start));
}

} // verus!
