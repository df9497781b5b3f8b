//! Listeners: which session a datagram goes to, and which go on.

use vstd::prelude::*;

use crate::config::KcpConfig;
use crate::engine::{complete, le32};
use crate::error::KcpError;
use crate::kcp_io::{served, ServerKcpIo};
use crate::laws::making::{is_made, lemma_is_made};
use crate::laws::taking::{lemma_serves, serves};
use crate::laws::updating::{due_in, ends_session, updates};
use crate::listener::{delivered, knows, Accepted, KcpListener, Turn};
use crate::output::{KcpOutputHandle, PeerAddr};
use crate::skcp::SocketView;
use crate::utils::duration_nanos;

verus! {

/// A datagram goes to the session with its peer, which serves it, and no other session is touched; one
/// from a peer without a session goes to a new session, made for that peer under the number that the
/// datagram begins with. A new session that refuses its datagram is closed.
#[verifier::rlimit(40)]
pub proof fn a_datagram_goes_to_its_peers_session(
    l: &mut KcpListener,
    buf: &[u8],
    size: usize,
    addr: PeerAddr,
    now: u64,
    res: Result<Accepted, KcpError>,
)
    requires
        old(l).wf(),
        call_ensures(KcpListener::accept, (l, buf, size, addr, now), res),
    ensures
        ({
            let a = old(l).sessions();
            let b = final(l).sessions();
            let d = buf@.take(size as int);
            &&& forall|i: int|
                0 <= i < a.len() && (#[trigger] a[i]).0 == addr ==> {
                    &&& b.len() == a.len()
                    &&& forall|j: int| 0 <= j < a.len() && j != i ==> b[j] == #[trigger] a[j]
                    &&& b[i].0 == addr
                    &&& b[i].1.unread == a[i].1.unread
                    &&& match res {
                        Ok(Accepted::Delivered { readable }) => serves(
                            a[i].1.socket,
                            b[i].1.socket,
                            d,
                            now,
                            Ok(readable),
                        ),
                        Ok(Accepted::New { readable }) => false,
                        Err(err) => serves(a[i].1.socket, b[i].1.socket, d, now, Err(err)),
                    }
                }
            &&& (forall|i: int| 0 <= i < a.len() ==> (#[trigger] a[i]).0 != addr) ==> {
                &&& b.len() == a.len() + 1
                &&& forall|j: int| 0 <= j < a.len() ==> b[j] == #[trigger] a[j]
                &&& b.last().0 == addr
                &&& b.last().1.unread.len() == 0
                &&& exists|s: SocketView| #[trigger]
                    is_made(s, old(l).config(), le32(buf@, 0), old(l).config().stream, now) && s.kcp.output.to() == addr
                        && s.kcp.output.handle() == old(l).queue() && match res {
                        Ok(Accepted::New { readable }) => serves(s, b.last().1.socket, d, now, Ok(readable)),
                        Ok(Accepted::Delivered { readable }) => false,
                        Err(err) => b.last().1.socket.is_closed && serves(
                            s,
                            (SocketView { is_closed: false, ..b.last().1.socket }),
                            d,
                            now,
                            Err(err),
                        ),
                    }
            }
        }),
        final(l).config() == old(l).config(),
        final(l).queue() == old(l).queue(),
{
    let a = old(l).sessions();
    let b = final(l).sessions();
    let d = buf@.take(size as int);
    old(l).lemma_wf();
    if knows(a, addr) {
        let i = choose|i: int| #[trigger]
            delivered(a, b, i, d, now) && a[i].0 == addr && match a[i].1.socket.answer(d) {
                Ok(_) => res == Ok::<Accepted, KcpError>(
                    Accepted::Delivered { readable: complete(b[i].1.socket.kcp.arrived) },
                ),
                Err(err) => res == Err::<Accepted, KcpError>(err),
            };
        let r = match res {
            Ok(_) => Ok::<bool, KcpError>(complete(b[i].1.socket.kcp.arrived)),
            Err(err) => Err::<bool, KcpError>(err),
        };
        lemma_serves(a[i].1.socket, d, now, r);
        assert forall|k: int| 0 <= k < a.len() && (#[trigger] a[k]).0 == addr implies k == i by {}
        assert forall|j: int| 0 <= j < a.len() && j != i implies b[j] == #[trigger] a[j] by {}
    } else {
        let c = old(l).config();
        let s = SocketView::fresh(c, le32(buf@, 0), b.last().1.socket.kcp.output, c.stream, now);
        lemma_is_made(s, c, le32(buf@, 0), s.kcp.output, c.stream, now);
        let r = match res {
            Ok(_) => Ok::<bool, KcpError>(complete(served(s, d, now).kcp.arrived)),
            Err(err) => Err::<bool, KcpError>(err),
        };
        lemma_serves(s, d, now, r);
        if res is Err {
            assert((SocketView { is_closed: false, ..b.last().1.socket }) =~= served(s, d, now));
        }
        assert(is_made(s, c, le32(buf@, 0), c.stream, now));
        assert forall|j: int| 0 <= j < a.len() implies b[j] == #[trigger] a[j] by {}
    }
}

/// A turn of the timer of a listener's session ends it, closes it or leaves it as it is, by the time of
/// its last interaction, and touches no other session. One that ends is forgotten, and handed out
/// flushed and ended.
#[verifier::rlimit(40)]
pub proof fn a_listener_turns(l: &mut KcpListener, i: usize, now: u64, current: u32, later: u32, res: Turn)
    requires
        old(l).wf(),
        i < old(l).sessions().len(),
        call_ensures(KcpListener::tick, (l, i, now, current, later), res),
    ensures
        ({
            let a = old(l).sessions();
            let b = final(l).sessions();
            let s = a[i as int].1.socket;
            let expire = old(l).config().session_expire;
            let silent = now - s.last_update;
            let gone = expire is Some && silent > 2 * duration_nanos(expire->Some_0);
            let overdue = expire is Some && silent > duration_nanos(expire->Some_0);
            let done = s.is_closed && s.kcp.queued.len() == 0 && s.kcp.in_flight.len() == 0;
            match res {
                Turn::Ended { peer, io, sender } => {
                    &&& gone || done
                    &&& peer == a[i as int].0
                    &&& ends_session(a[i as int].1, io@)
                    &&& sender == s.send_task
                    &&& b.len() == a.len() - 1
                    &&& forall|j: int| 0 <= j < i ==> #[trigger] b[j] == a[j]
                    &&& forall|j: int| i <= j < b.len() ==> #[trigger] b[j] == a[j + 1]
                },
                Turn::Sleep(next) => {
                    &&& !gone && !done
                    &&& next <= s.kcp.interval
                    &&& due_in(b[i as int].1.socket.kcp, later, next)
                    &&& b.len() == a.len()
                    &&& forall|j: int| 0 <= j < b.len() && j != i ==> #[trigger] b[j] == a[j]
                    &&& b[i as int].0 == a[i as int].0
                    &&& b[i as int].1.unread == a[i as int].1.unread
                    &&& updates(s.kcp, b[i as int].1.socket.kcp, current)
                    &&& b[i as int].1.socket == (SocketView {
                        kcp: b[i as int].1.socket.kcp,
                        is_closed: s.is_closed || overdue,
                        ..s
                    })
                },
            }
        }),
        final(l).config() == old(l).config(),
        final(l).queue() == old(l).queue(),
{
    if res is Sleep {
        final(l).lemma_machine(i as int, later);
    }
}

/// A listener begins without sessions, finds the session of a peer if it has one, counts its sessions,
/// and forgets the one that it is told to, and no other.
pub proof fn a_listener_keeps_its_sessions(
    config: KcpConfig,
    queue: KcpOutputHandle,
    fresh: KcpListener,
    l: &KcpListener,
    addr: PeerAddr,
    found: Option<usize>,
    len: usize,
    recv_len: usize,
    less: &mut KcpListener,
    gone: bool,
)
    requires
        call_ensures(KcpListener::new, (config, queue), fresh),
        l.wf(),
        call_ensures(KcpListener::find, (l, addr), found),
        call_ensures(KcpListener::len, (l,), len),
        call_ensures(KcpListener::recv_len, (l,), recv_len),
        old(less).wf(),
        call_ensures(KcpListener::remove, (less, addr), gone),
    ensures
        fresh.sessions().len() == 0,
        fresh.config() == config,
        fresh.queue() == queue,
        len == l.sessions().len(),
        recv_len == l.config().mtu,
        found is Some ==> found->Some_0 < l.sessions().len() && l.sessions()[found->Some_0 as int].0 == addr,
        found is None ==> forall|i: int| 0 <= i < l.sessions().len() ==> (#[trigger] l.sessions()[i]).0 != addr,
        forall|i: int|
            0 <= i < final(less).sessions().len() ==> (#[trigger] final(less).sessions()[i]).0 != addr,
        forall|i: int|
            0 <= i < old(less).sessions().len() && (#[trigger] old(less).sessions()[i]).0 != addr
                ==> final(less).sessions().contains(old(less).sessions()[i]),
        final(less).sessions().len() == old(less).sessions().len() - if gone {
            1int
        } else {
            0
        },
{
    let a = old(less).sessions();
    let b = final(less).sessions();
    assert forall|i: int| 0 <= i < a.len() && (#[trigger] a[i]).0 != addr implies b.contains(a[i]) by {
        if gone {
            let k = choose|k: int| 0 <= k < a.len() && #[trigger] a[k].0 == addr && b == a.remove(k);
            if i < k {
                assert(b[i] == a[i]);
            } else {
                assert(b[i - 1] == a[i]);
            }
        } else {
            assert(b[i] == a[i]);
        }
    }
}

/// A session of a listener is reached by its place, and reaching it touches no other.
pub proof fn a_listeners_session_is_reached(l: &mut KcpListener, i: usize, io: &mut ServerKcpIo)
    requires
        old(l).wf(),
        i < old(l).sessions().len(),
        call_ensures(KcpListener::session, (l, i), io),
    ensures
        old(io)@ == old(l).sessions()[i as int].1,
        final(l).sessions().len() == old(l).sessions().len(),
        final(l).sessions()[i as int].1 == final(io)@,
        final(l).sessions()[i as int].0 == old(l).sessions()[i as int].0,
        forall|j: int|
            0 <= j < old(l).sessions().len() && j != i ==> #[trigger] final(l).sessions()[j] == old(l).sessions()[j],
{
}

} // verus!
