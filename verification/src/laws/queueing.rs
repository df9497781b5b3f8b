//! The queue of datagrams: in order, and each to its peer.

use bytes::Bytes;
use vstd::prelude::*;
use vstd::rwlock::{RwLock, RwLockPredicate, WriteHandle};

use crate::config::KcpConfig;
use crate::output::{
    bytes_contents, KcpOutput, KcpOutputHandle, KcpOutputInner, PeerAddr, QueueAction, QueueHistory, QueueView,
    SendAttempt,
};
use crate::skcp::SharedKcp;

verus! {

/// `b` is the queue `a` with one datagram more, behind all others, and with its sender to be woken if
/// the sender waited.
pub open spec fn one_more(a: QueueView, b: QueueView, peer: PeerAddr, pkt: Seq<u8>) -> bool {
    &&& b.packets.len() == a.packets.len() + 1
    &&& a.packets.is_prefix_of(b.packets)
    &&& b.packets.last() == (peer, pkt)
    &&& !b.task
    &&& b.wake == (a.wake || a.task)
    &&& b.finished == a.finished
}

/// What a turn of a queue's sender promises, where the queue `a` became `b`.
///
/// A datagram leaves the queue when it was sent, and only then, first in line first; the sender is
/// given the one that is then first in line. A socket that cannot send now, or that failed, leaves the
/// queue as it is. A sender who finds nothing waits, unless the queue is closed.
pub open spec fn next_in_line(a: QueueView, b: QueueView, last: Option<SendAttempt>, action: QueueAction) -> bool {
    &&& b.finished == a.finished
    &&& b.wake == a.wake
    &&& match last {
        Some(SendAttempt::WouldBlock) => action is WaitWritable && b == a,
        Some(SendAttempt::Failed(err)) => action == QueueAction::Fail(err) && b == a,
        _ => {
            &&& b.packets == if last is Some && a.packets.len() > 0 {
                a.packets.skip(1)
            } else {
                a.packets
            }
            &&& match action {
                QueueAction::Send(peer, pkt) => b.packets.len() > 0 && b.packets[0] == (peer, bytes_contents(pkt))
                    && b.task == a.task,
                QueueAction::Finished => b.packets.len() == 0 && b.finished && b.task == a.task,
                QueueAction::WaitPackets => b.packets.len() == 0 && !b.finished && b.task,
                _ => false,
            }
        },
    }
}

/// A datagram that is handed to a queue goes behind those that wait, unless an attempt to send it at
/// once ended it: one that was sent or that failed is not queued.
pub proof fn a_datagram_is_queued_last(
    q: &mut KcpOutputInner,
    buf: &[u8],
    peer: PeerAddr,
    attempt: Option<SendAttempt>,
    res: Result<usize, std::io::Error>,
)
    requires
        call_ensures(KcpOutputInner::send_or_push, (q, buf, peer, attempt), res),
    ensures
        match attempt {
            Some(SendAttempt::Sent(n)) => final(q)@ == old(q)@ && res == Ok::<usize, std::io::Error>(n),
            Some(SendAttempt::Failed(err)) => final(q)@ == old(q)@ && res == Err::<usize, std::io::Error>(err),
            _ => one_more(old(q)@, final(q)@, peer, buf@) && res == Ok::<usize, std::io::Error>(buf.len()),
        },
{
}

/// So does one that is pushed.
pub proof fn a_pushed_datagram_is_last(q: &mut KcpOutputInner, pkt: Bytes, peer: PeerAddr)
    requires
        call_ensures(KcpOutputInner::push_packet, (q, pkt, peer), ()),
    ensures
        one_more(old(q)@, final(q)@, peer, bytes_contents(pkt)),
{
}

/// Datagrams leave a queue in order, each when it was sent.
pub proof fn datagrams_are_sent_in_order(q: &mut KcpOutputInner, last: Option<SendAttempt>, action: QueueAction)
    requires
        call_ensures(KcpOutputInner::poll, (q, last), action),
    ensures
        next_in_line(old(q)@, final(q)@, last, action),
{
    assert(old(q)@.packets.len() > 0 ==> old(q)@.packets.drop_first() =~= old(q)@.packets.skip(1));
}

/// A datagram that goes into an empty queue is the next one to be sent, and after it the queue is
/// empty again.
pub proof fn a_lone_datagram_is_sent(
    q: &mut KcpOutputInner,
    buf: &[u8],
    peer: PeerAddr,
    res: Result<usize, std::io::Error>,
    then: &mut KcpOutputInner,
    action: QueueAction,
    after: &mut KcpOutputInner,
    n: usize,
    end: QueueAction,
)
    requires
        old(q)@.packets.len() == 0,
        call_ensures(KcpOutputInner::send_or_push, (q, buf, peer, None::<SendAttempt>), res),
        *old(then) == *final(q),
        call_ensures(KcpOutputInner::poll, (then, None::<SendAttempt>), action),
        *old(after) == *final(then),
        call_ensures(KcpOutputInner::poll, (after, Some(SendAttempt::Sent(n))), end),
    ensures
        action matches QueueAction::Send(to, pkt) && to == peer && bytes_contents(pkt) == buf@,
        final(after)@.packets.len() == 0,
        end is Finished || end is WaitPackets,
{
    a_datagram_is_queued_last(q, buf, peer, None, res);
    datagrams_are_sent_in_order(then, None, action);
    datagrams_are_sent_in_order(after, Some(SendAttempt::Sent(n)), end);
}

/// A queue begins empty and open, says when nothing waits, is closed for good, and has its sender woken
/// once for each wait.
pub proof fn a_queue_keeps_its_notes(
    fresh: KcpOutputInner,
    q: &KcpOutputInner,
    empty: bool,
    closed: &mut KcpOutputInner,
    woken: &mut KcpOutputInner,
    wake: bool,
    noted: &mut KcpOutputInner,
)
    requires
        call_ensures(KcpOutputInner::new, (), fresh),
        call_ensures(KcpOutputInner::is_empty, (q,), empty),
        call_ensures(KcpOutputInner::close, (closed,), ()),
        call_ensures(KcpOutputInner::take_wake, (woken,), wake),
        call_ensures(KcpOutputInner::notify, (noted,), ()),
    ensures
        fresh@.packets.len() == 0 && !fresh@.task && !fresh@.wake && !fresh@.finished,
        empty <==> q@.packets.len() == 0,
        final(closed)@.finished,
        final(closed)@.packets == old(closed)@.packets,
        final(closed)@.wake == (old(closed)@.wake || old(closed)@.task),
        !final(closed)@.task,
        wake == old(woken)@.wake,
        !final(woken)@.wake,
        final(woken)@ == (QueueView { wake: final(woken)@.wake, ..old(woken)@ }),
        final(noted)@.packets == old(noted)@.packets,
        final(noted)@.finished == old(noted)@.finished,
        !final(noted)@.task,
        final(noted)@.wake == (old(noted)@.wake || old(noted)@.task),
{
}

/// The queue behind the lock of `h` was taken as `a` and put back as `b`.
pub open spec fn under_lock(h: KcpOutputHandle, a: KcpOutputInner, b: KcpOutputInner) -> bool {
    &&& h.lock().pred().start.becomes(a@)
    &&& exists|guard: WriteHandle<'_, KcpOutputInner, QueueHistory>| #[trigger]
        call_ensures(RwLock::<KcpOutputInner, QueueHistory>::acquire_write, (&h.lock(),), (a, guard)) && call_ensures(
            WriteHandle::<KcpOutputInner, QueueHistory>::release_write,
            (guard, b),
            (),
        )
}

/// A datagram that is handed to a shared queue is put behind all that wait in it: the queue was taken
/// from behind its lock and put back with that datagram.
pub proof fn a_datagram_reaches_the_shared_queue(
    h: &KcpOutputHandle,
    buf: &[u8],
    peer: PeerAddr,
    res: Result<usize, std::io::Error>,
)
    requires
        call_ensures(KcpOutputHandle::send_to, (h, buf, peer), res),
    ensures
        res == Ok::<usize, std::io::Error>(buf.len()),
        exists|a: KcpOutputInner, b: KcpOutputInner| #[trigger]
            under_lock(*h, a, b) && h.start().becomes(a@) && one_more(a@, b@, peer, buf@),
{
    let q = choose|q: &mut KcpOutputInner|
        h.start().becomes((*q)@) && h.turn(*q, *final(q)) && #[trigger] call_ensures(
            KcpOutputInner::send_or_push,
            (q, buf, peer, None::<SendAttempt>),
            res,
        );
    h.lemma_start();
    h.lemma_turn(*q, *final(q));
    assert(under_lock(*h, *q, *final(q)));
    assert(one_more((*q)@, final(q)@, peer, buf@));
}

/// What an output writes goes to its peer: the shared queue is put back with the written bytes last in
/// line, for the peer of the output and no other.
pub proof fn what_is_written_goes_to_the_peer(o: &KcpOutput, buf: &[u8], res: std::io::Result<usize>)
    requires
        call_ensures(KcpOutput::put, (o, buf), res),
    ensures
        res == Ok::<usize, std::io::Error>(buf.len()),
        exists|a: KcpOutputInner, b: KcpOutputInner| #[trigger]
            under_lock(o.handle(), a, b) && o.handle().start().becomes(a@) && one_more(a@, b@, o.to(), buf@),
{
    a_datagram_reaches_the_shared_queue(&o.handle(), buf, o.to(), res);
}

/// A session's datagrams go to the peer that it was made for, by the queue that it hands out.
pub proof fn a_session_writes_to_its_peer(
    c: &KcpConfig,
    conv: u32,
    peer: PeerAddr,
    stream: bool,
    now: u64,
    s: SharedKcp,
    queue: KcpOutputHandle,
    buf: &[u8],
    res: std::io::Result<usize>,
)
    requires
        call_ensures(SharedKcp::new, (c, conv, peer, stream, now), s),
        call_ensures(SharedKcp::output_queue, (&s,), queue),
        call_ensures(KcpOutput::put, (&s@.kcp.output, buf), res),
    ensures
        queue.start() == (QueueView { packets: Seq::empty(), task: false, wake: false, finished: false }),
        exists|a: KcpOutputInner, b: KcpOutputInner| #[trigger]
            under_lock(queue, a, b) && queue.start().becomes(a@) && one_more(a@, b@, peer, buf@),
{
    what_is_written_goes_to_the_peer(&s@.kcp.output, buf, res);
}

/// A turn of the sender on a shared queue is one on the queue behind its lock.
pub proof fn a_shared_queue_is_sent_in_order(h: &KcpOutputHandle, last: Option<SendAttempt>, action: QueueAction)
    requires
        call_ensures(KcpOutputHandle::poll, (h, last), action),
    ensures
        exists|a: KcpOutputInner, b: KcpOutputInner| #[trigger]
            under_lock(*h, a, b) && h.start().becomes(a@) && next_in_line(a@, b@, last, action),
{
    let q = choose|q: &mut KcpOutputInner|
        h.start().becomes((*q)@) && h.turn(*q, *final(q)) && #[trigger] call_ensures(
            KcpOutputInner::poll,
            (q, last),
            action,
        );
    datagrams_are_sent_in_order(q, last, action);
    h.lemma_start();
    h.lemma_turn(*q, *final(q));
    assert(under_lock(*h, *q, *final(q)));
}

/// Closing a shared queue, and asking whether its sender is to be woken, are done on the queue behind
/// its lock.
pub proof fn a_shared_queue_keeps_its_notes(h: &KcpOutputHandle, wake: bool)
    requires
        call_ensures(KcpOutputHandle::close, (h,), ()),
        call_ensures(KcpOutputHandle::take_wake, (h,), wake),
    ensures
        exists|a: KcpOutputInner, b: KcpOutputInner| #[trigger]
            under_lock(*h, a, b) && b@.finished && b@.packets == a@.packets && b@.wake == (a@.wake || a@.task),
        exists|a: KcpOutputInner, b: KcpOutputInner| #[trigger]
            under_lock(*h, a, b) && wake == a@.wake && b@ == (QueueView { wake: false, ..a@ }),
{
    let q = choose|q: &mut KcpOutputInner|
        h.start().becomes((*q)@) && h.turn(*q, *final(q)) && #[trigger] call_ensures(KcpOutputInner::close, (q,), ());
    h.lemma_start();
    h.lemma_turn(*q, *final(q));
    assert(under_lock(*h, *q, *final(q)));
    let r = choose|r: &mut KcpOutputInner|
        h.start().becomes((*r)@) && h.turn(*r, *final(r)) && #[trigger] call_ensures(
            KcpOutputInner::take_wake,
            (r,),
            wake,
        );
    h.lemma_turn(*r, *final(r));
    assert(under_lock(*h, *r, *final(r)));
}

/// Outputs are made for the peer and the queue that they are given, and a handle's copy is a handle on
/// the same queue.
pub proof fn outputs_keep_their_peer(
    h: KcpOutputHandle,
    peer: PeerAddr,
    o: KcpOutput,
    queue: KcpOutputHandle,
    own: KcpOutput,
    copy: KcpOutputHandle,
)
    requires
        call_ensures(KcpOutput::new_with_handle, (h, peer), o),
        call_ensures(KcpOutput::queue, (&o,), queue),
        call_ensures(KcpOutput::new, (peer,), own),
        call_ensures(<KcpOutputHandle as Clone>::clone, (&h,), copy),
    ensures
        o.to() == peer,
        o.handle() == h,
        queue == h,
        own.to() == peer,
        own.handle().start().packets.len() == 0,
        copy == h,
{
}

/// The address that a socket is bound to is of the family of its peer, and leaves the rest open.
pub proof fn any_local_is_of_the_family(peer: &PeerAddr, res: PeerAddr)
    requires
        call_ensures(PeerAddr::any_local, (peer,), res),
    ensures
        res.is_v6 == peer.is_v6,
        res.ip == 0 && res.port == 0 && res.flowinfo == 0 && res.scope_id == 0,
{
}

} // verus!
