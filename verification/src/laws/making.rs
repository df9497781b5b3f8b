//! Making sessions by their settings, and the meaning of errors.

use kcp::Kcp;
use vstd::prelude::*;

use crate::config::{KcpConfig, KcpNoDelayConfig};
use crate::engine::{kcp_state, KcpState};
use crate::error::{from_kcp, ErrorClass, KcpError};
use crate::output::{KcpOutput, PeerAddr};
use crate::session::KcpSession;
use crate::skcp::{SharedKcp, SocketView};
use crate::stream::KcpStream;
use crate::utils::duration_nanos;

verus! {

/// What applying settings to a machine promises, where `a` became `b`: the MTU, with room for payload
/// behind a header, the timing, and the windows where they are not 0. Nothing else changes.
pub open spec fn configured(c: KcpConfig, a: KcpState, b: KcpState) -> bool {
    &&& b.mtu == c.mtu
    &&& b.mss + 24 == c.mtu
    &&& b.nodelay == c.nodelay.nodelay
    &&& b.min_rto == if c.nodelay.nodelay {
        30u32
    } else {
        100u32
    }
    &&& 10 <= b.interval <= 5000
    &&& 10 <= c.nodelay.interval <= 5000 ==> b.interval == c.nodelay.interval
    &&& c.nodelay.interval < 10 ==> b.interval == 10
    &&& c.nodelay.interval > 5000 ==> b.interval == 5000
    &&& c.nodelay.resend >= 0 ==> b.fast_resend == c.nodelay.resend
    &&& c.nodelay.resend < 0 ==> b.fast_resend == a.fast_resend
    &&& b.no_cwnd == c.nodelay.nc
    &&& c.wnd_size.0 > 0 ==> b.snd_wnd == c.wnd_size.0
    &&& c.wnd_size.0 == 0 ==> b.snd_wnd == a.snd_wnd
    &&& c.wnd_size.1 >= 128 ==> b.rcv_wnd == c.wnd_size.1
    &&& 0 < c.wnd_size.1 < 128 ==> b.rcv_wnd == 128
    &&& c.wnd_size.1 == 0 ==> b.rcv_wnd == a.rcv_wnd
    &&& b == (KcpState {
        mtu: b.mtu,
        mss: b.mss,
        nodelay: b.nodelay,
        min_rto: b.min_rto,
        interval: b.interval,
        fast_resend: b.fast_resend,
        no_cwnd: b.no_cwnd,
        snd_wnd: b.snd_wnd,
        rcv_wnd: b.rcv_wnd,
        ..a
    })
}

/// What a new session promises: a fresh machine with the settings, in the given conversation, which
/// asks its peer for a number if it has none, and nothing noted yet.
pub open spec fn is_made(s: SocketView, c: KcpConfig, conv: u32, stream: bool, now: u64) -> bool {
    &&& exists|k: KcpState| #[trigger] configured(c, k, s.kcp) && k.snd_wnd == 32 && k.rcv_wnd == 128 && k.fast_resend == 0
    &&& s.kcp.conv == conv
    &&& s.kcp.waiting_conv == (conv == 0)
    &&& s.kcp.stream == stream
    &&& !s.kcp.updated
    &&& s.kcp.current == 0
    &&& s.kcp.queued.len() == 0
    &&& s.kcp.in_flight.len() == 0
    &&& s.kcp.snd_nxt == 0
    &&& s.kcp.arrived.len() == 0
    &&& s.kcp.rcv_nxt == 0
    &&& s.kcp.early.dom().is_empty()
    &&& s.kcp.acks.len() == 0
    &&& s.last_update == now
    &&& !s.is_closed
    &&& !s.send_task
    &&& s.recv_buf.len() == 0
    &&& !s.expired
    &&& !s.sent_first
    &&& s.flush_write == c.flush_write
    &&& s.flush_ack_input == c.flush_acks_input
    &&& s.allow_empty == c.allow_recv_empty_packet
}

/// Settings are applied as they are given.
pub proof fn settings_are_applied(c: &KcpConfig, k: &mut Kcp<KcpOutput>)
    requires
        c.valid(),
        call_ensures(KcpConfig::apply_config, (c, k), ()),
    ensures
        configured(*c, kcp_state(*old(k)), kcp_state(*final(k))),
{
}

/// Settings are valid exactly if a segment fits into the MTU and the machine's buffer can be had.
pub proof fn settings_are_valid(c: &KcpConfig, res: bool)
    requires
        call_ensures(KcpConfig::is_valid, (c,), res),
    ensures
        res <==> c.mtu >= 50 && 3 * (c.mtu + 24) <= isize::MAX,
{
}

/// A new session is made as the settings say.
pub proof fn a_session_is_made_as_set(
    c: &KcpConfig,
    conv: u32,
    output: KcpOutput,
    peer: PeerAddr,
    stream: bool,
    now: u64,
    s: SharedKcp,
    own: SharedKcp,
)
    requires
        c.valid(),
        call_ensures(SharedKcp::new_with_output, (c, conv, output, stream, now), s),
        call_ensures(SharedKcp::new, (c, conv, peer, stream, now), own),
    ensures
        is_made(s@, *c, conv, stream, now),
        s@.kcp.output == output,
        is_made(own@, *c, conv, stream, now),
        own@.kcp.output.to() == peer,
        own@.kcp.output.handle().start().packets.len() == 0,
{
    lemma_is_made(s@, *c, conv, s@.kcp.output, stream, now);
    lemma_is_made(own@, *c, conv, own@.kcp.output, stream, now);
}

/// A fresh session is what a new session promises.
pub(crate) proof fn lemma_is_made(s: SocketView, c: KcpConfig, conv: u32, output: KcpOutput, stream: bool, now: u64)
    requires
        c.valid(),
        s == SocketView::fresh(c, conv, output, stream, now),
    ensures
        is_made(s, c, conv, stream, now),
{
    let k = KcpState { waiting_conv: conv == 0, ..KcpState::fresh(conv, output, stream) };
    assert(configured(c, k, s.kcp));
}

/// A stream is connected on a new client's session with its peer.
pub proof fn a_stream_is_connected(
    c: &KcpConfig,
    conv: u32,
    peer: PeerAddr,
    now: u64,
    res: (KcpStream, KcpSession),
    any: (KcpStream, KcpSession),
    fresh: KcpStream,
)
    requires
        c.valid(),
        call_ensures(KcpStream::connect_with_conv, (c, conv, peer, now), res),
        call_ensures(KcpStream::connect, (c, peer, now), any),
        call_ensures(KcpStream::new, (), fresh),
    ensures
        is_made(res.1@.socket, *c, conv, c.stream, now),
        res.1@.socket.kcp.output.to() == peer,
        res.1@.is_client && !res.1@.closed,
        res.0@.len() == 0,
        is_made(any.1@.socket, *c, any.1@.socket.kcp.conv, c.stream, now),
        any.1@.socket.kcp.output.to() == peer,
        any.1@.is_client && !any.1@.closed,
        any.0@.len() == 0,
        fresh@.len() == 0,
        c.session_expire is Some ==> res.1@.expire == Some(duration_nanos(c.session_expire->Some_0)),
        c.session_expire is None ==> res.1@.expire is None,
{
    let s = res.1@.socket;
    lemma_is_made(s, *c, conv, s.kcp.output, c.stream, now);
    let t = any.1@.socket;
    lemma_is_made(t, *c, t.kcp.conv, t.kcp.output, c.stream, now);
}

/// The defaults: an MTU of 1400, windows of 256 segments, an expiry of 90 seconds, and the normal
/// timing.
pub proof fn the_defaults(c: KcpConfig, n: KcpNoDelayConfig, normal: KcpNoDelayConfig, fastest: KcpNoDelayConfig)
    requires
        call_ensures(<KcpConfig as Default>::default, (), c),
        call_ensures(<KcpNoDelayConfig as Default>::default, (), n),
        call_ensures(KcpNoDelayConfig::normal, (), normal),
        call_ensures(KcpNoDelayConfig::fastest, (), fastest),
    ensures
        c.valid(),
        c.mtu == 1400,
        c.wnd_size.0 == 256 && c.wnd_size.1 == 256,
        c.session_expire is Some && duration_nanos(c.session_expire->Some_0) == 90_000_000_000,
        !c.flush_write && !c.flush_acks_input && !c.stream && !c.allow_recv_empty_packet,
        c.nodelay == normal,
        !n.nodelay && n.interval == 100 && n.resend == 0 && !n.nc,
        !normal.nodelay && normal.interval == 40 && normal.resend == 0 && !normal.nc,
        fastest.nodelay && fastest.interval == 10 && fastest.resend == 2 && fastest.nc,
{
}

/// Errors keep their meaning: each error of a machine becomes the one that says the same, no two become
/// the same, and to wait is what a session asks for exactly where nothing is there to be read, a
/// message is not there in full or the window is full.
pub proof fn errors_keep_their_meaning(a: kcp::Error, x: KcpError, b: kcp::Error, y: KcpError, e: &KcpError, class: ErrorClass)
    requires
        call_ensures(from_kcp, (a,), x),
        call_ensures(from_kcp, (b,), y),
        call_ensures(KcpError::class, (e,), class),
    ensures
        x == y ==> a == b,
        x is RecvQueueEmpty <==> a is RecvQueueEmpty,
        x is ExpectingFragment <==> a is ExpectingFragment,
        x is UserBufTooSmall <==> a is UserBufTooSmall,
        x is UserBufTooBig <==> a is UserBufTooBig,
        x is NeedUpdate <==> a is NeedUpdate,
        x is IoError <==> a is IoError,
        x is ConvInconsistent <==> a is ConvInconsistent,
        x is InvalidMtu <==> a is InvalidMtu,
        x is InvalidSegmentSize <==> a is InvalidSegmentSize,
        x is InvalidSegmentDataSize <==> a is InvalidSegmentDataSize,
        x is UnsupportedCmd <==> a is UnsupportedCmd,
        a matches kcp::Error::IoError(err) ==> x == KcpError::IoError(err),
        class is WouldBlock <==> e is RecvQueueEmpty || e is ExpectingFragment || e is TooManyPending,
        class is BrokenPipe <==> e is SessionExpired,
        class is Io <==> e is IoError,
{
}

} // verus!
