//! Where a protocol machine writes its datagrams: a queue from which they are sent.

use std::collections::VecDeque;
use std::io::Write;
use std::sync::Arc;

use bytes::buf::FromBuf;
use bytes::Bytes;
use vstd::prelude::*;
use vstd::rwlock::{RwLock, RwLockPredicate, WriteHandle};

verus! {

/// `bytes::Bytes`: a buffer, of which nothing is seen but its [`bytes_contents`].
#[verifier::external_type_specification]
#[verifier::external_body]
pub struct ExBytes(bytes::Bytes);

/// The bytes that a buffer holds.
pub uninterp spec fn bytes_contents(b: Bytes) -> Seq<u8>;

/// `Bytes::from_buf`: a buffer that holds a copy of the given bytes.
#[verifier::external_body]
fn bytes_from_buf(buf: &[u8]) -> (res: Bytes)
    ensures
        bytes_contents(res) == buf@,
{
    Bytes::from_buf(buf)
}

/// `Bytes::clone`: a second buffer that holds the same bytes.
#[verifier::external_body]
fn bytes_clone(b: &Bytes) -> (res: Bytes)
    ensures
        bytes_contents(res) == bytes_contents(*b),
{
    b.clone()
}

/// The address of a peer: an IPv4 address in the low 32 bits of `ip`, or an IPv6 address with
/// its flow and scope.
#[derive(Debug, Clone, Copy, PartialEq, Eq, Structural)]
pub struct PeerAddr {
    pub ip: u128,
    pub is_v6: bool,
    pub port: u16,
    pub flowinfo: u32,
    pub scope_id: u32,
}

impl PeerAddr {
    /// The address to which a socket is bound that talks to this peer: any address of the same
    /// family, and any port.
    pub fn any_local(&self) -> (res: PeerAddr)
        ensures
            res == (PeerAddr { ip: 0, is_v6: self.is_v6, port: 0, flowinfo: 0, scope_id: 0 }),
    {
        PeerAddr { ip: 0, is_v6: self.is_v6, port: 0, flowinfo: 0, scope_id: 0 }
    }
}

/// How an attempt to send a datagram ended.
pub enum SendAttempt {
    /// So many bytes were sent.
    Sent(usize),
    /// The socket cannot send now.
    WouldBlock,
    /// The socket failed.
    Failed(std::io::Error),
}

/// What the sender of a queue does next.
pub enum QueueAction {
    /// Send this datagram to this peer, and report how it ended.
    Send(PeerAddr, Bytes),
    /// Wait until the socket can send.
    WaitWritable,
    /// Wait until a datagram is pushed.
    WaitPackets,
    /// Everything is sent and nothing more will come.
    Finished,
    /// Give up: the socket failed.
    Fail(std::io::Error),
}

/// The contents of an output queue.
#[verifier::ext_equal]
pub struct QueueView {
    /// The datagrams that wait, first in line first, each with its peer.
    pub packets: Seq<(PeerAddr, Seq<u8>)>,
    /// Whether the sender waits to be woken.
    pub task: bool,
    /// Whether the sender is to be woken.
    pub wake: bool,
    /// Whether the queue is closed.
    pub finished: bool,
}

/// What the sender of a queue does next, with the bytes of the datagram.
pub enum ActionView {
    Send(PeerAddr, Seq<u8>),
    WaitWritable,
    WaitPackets,
    Finished,
    Fail(std::io::Error),
}

impl View for QueueAction {
    type V = ActionView;

    open spec fn view(&self) -> ActionView {
        match self {
            QueueAction::Send(peer, pkt) => ActionView::Send(*peer, bytes_contents(*pkt)),
            QueueAction::WaitWritable => ActionView::WaitWritable,
            QueueAction::WaitPackets => ActionView::WaitPackets,
            QueueAction::Finished => ActionView::Finished,
            QueueAction::Fail(err) => ActionView::Fail(*err),
        }
    }
}

impl QueueView {
    /// A queue to which nothing has happened yet.
    pub open spec fn fresh() -> QueueView {
        QueueView { packets: Seq::empty(), task: false, wake: false, finished: false }
    }

    /// Whether one step leads from this queue to `next`: a datagram is pushed, its sender takes a
    /// turn, it is closed, or its sender is woken.
    pub open spec fn steps_to(self, next: QueueView) -> bool {
        ||| exists|peer: PeerAddr, pkt: Seq<u8>| next == #[trigger] self.pushed(peer, pkt)
        ||| exists|last: Option<SendAttempt>| next == #[trigger] self.polled(last)
        ||| next == (QueueView { finished: true, ..self.notified() })
        ||| next == (QueueView { wake: false, ..self })
    }

    /// Whether `n` steps lead from this queue to `later`.
    pub open spec fn becomes_in(self, later: QueueView, n: nat) -> bool
        decreases n,
    {
        if n == 0 {
            later == self
        } else {
            exists|mid: QueueView| self.becomes_in(mid, (n - 1) as nat) && #[trigger] mid.steps_to(later)
        }
    }

    /// Whether steps lead from this queue to `later`.
    pub open spec fn becomes(self, later: QueueView) -> bool {
        exists|n: nat| #[trigger] self.becomes_in(later, n)
    }

    /// The queue after it was noted that a sender who waits is to be woken.
    pub open spec fn notified(self) -> QueueView {
        QueueView { task: false, wake: self.wake || self.task, ..self }
    }

    /// The queue with a datagram behind the others, and its sender to be woken.
    pub open spec fn pushed(self, peer: PeerAddr, pkt: Seq<u8>) -> QueueView {
        QueueView { packets: self.packets.push((peer, pkt)), ..self.notified() }
    }

    /// The queue after its first datagram was sent.
    pub open spec fn popped(self) -> QueueView {
        if self.packets.len() == 0 {
            self
        } else {
            QueueView { packets: self.packets.drop_first(), ..self }
        }
    }

    /// The queue after its sender looked for the next datagram: a sender that finds none waits,
    /// unless the queue is closed.
    pub open spec fn looked_at(self) -> QueueView {
        if self.packets.len() == 0 && !self.finished {
            QueueView { task: true, ..self }
        } else {
            self
        }
    }

    /// What a sender finds that looks for the next datagram.
    pub open spec fn next(self) -> ActionView {
        if self.packets.len() > 0 {
            ActionView::Send(self.packets[0].0, self.packets[0].1)
        } else if self.finished {
            ActionView::Finished
        } else {
            ActionView::WaitPackets
        }
    }

    /// The queue after a turn of its sender, who reports on the last attempt.
    pub open spec fn polled(self, last: Option<SendAttempt>) -> QueueView {
        match last {
            None => self.looked_at(),
            Some(SendAttempt::Sent(_)) => self.popped().looked_at(),
            Some(_) => self,
        }
    }

    /// What the sender does after a turn.
    pub open spec fn action(self, last: Option<SendAttempt>) -> ActionView {
        match last {
            None => self.next(),
            Some(SendAttempt::Sent(_)) => self.popped().next(),
            Some(SendAttempt::WouldBlock) => ActionView::WaitWritable,
            Some(SendAttempt::Failed(err)) => ActionView::Fail(err),
        }
    }

    /// The queue after a datagram was handed to it, with how an attempt to send it at once
    /// ended, where there was one.
    pub open spec fn offered(self, buf: Seq<u8>, peer: PeerAddr, attempt: Option<SendAttempt>) -> QueueView {
        match attempt {
            Some(SendAttempt::Sent(_)) | Some(SendAttempt::Failed(_)) => self,
            _ => self.pushed(peer, buf),
        }
    }

    /// The queue after `k` turns in which the first datagram was sent.
    pub open spec fn after_sends(self, k: nat) -> QueueView
        decreases k,
    {
        if k == 0 {
            self.polled(None)
        } else {
            self.after_sends((k - 1) as nat).polled(Some(SendAttempt::Sent(0)))
        }
    }
}

/// Datagrams leave a queue in the order in which they were pushed, each once: after `k` of them
/// were sent, the first `k` are gone and the next in line is the one to be sent.
pub proof fn datagrams_leave_in_order(q: QueueView, k: nat)
    requires
        k < q.packets.len(),
    ensures
        q.after_sends(k) == (QueueView { packets: q.packets.skip(k as int), ..q }),
        q.after_sends(k).next() == ActionView::Send(q.packets[k as int].0, q.packets[k as int].1),
    decreases k,
{
    if k > 0 {
        datagrams_leave_in_order(q, (k - 1) as nat);
        assert(q.packets.skip(k - 1).drop_first() =~= q.packets.skip(k as int));
    } else {
        assert(q.packets.skip(0) =~= q.packets);
    }
}

/// A queue is empty once as many datagrams were sent as it held.
pub proof fn sending_all_empties_the_queue(q: QueueView)
    ensures
        q.after_sends(q.packets.len()).packets.len() == 0,
        q.after_sends(q.packets.len()).next() == if q.finished {
            ActionView::Finished
        } else {
            ActionView::WaitPackets
        },
{
    let n = q.packets.len();
    if n > 0 {
        datagrams_leave_in_order(q, (n - 1) as nat);
        assert(q.packets.skip(n - 1).drop_first() =~= Seq::empty());
    }
}

/// No wake-up is lost: a sender who found nothing and waits is to be woken once a datagram is
/// pushed or the queue is closed.
pub proof fn a_waiting_sender_is_woken(q: QueueView, peer: PeerAddr, pkt: Seq<u8>)
    requires
        q.task,
    ensures
        q.pushed(peer, pkt).wake,
        q.notified().wake,
{
}

/// What a queue becomes, it becomes by one more step too.
proof fn lemma_becomes(start: QueueView, q: QueueView, next: QueueView)
    requires
        start.becomes(q),
        q.steps_to(next),
    ensures
        start.becomes(next),
{
    let n = choose|n: nat| #[trigger] start.becomes_in(q, n);
    assert(start.becomes_in(next, n + 1));
}

/// A queue that began empty never has its sender wait for what is there: while the sender waits,
/// no datagram is in line and the queue is not closed.
pub proof fn a_sender_waits_only_for_an_empty_queue(q: QueueView)
    requires
        QueueView::fresh().becomes(q),
    ensures
        q.task ==> q.packets.len() == 0 && !q.finished,
{
    let n = choose|n: nat| #[trigger] QueueView::fresh().becomes_in(q, n);
    lemma_waits_only_for_an_empty_queue(q, n);
}

/// The same after `n` steps.
proof fn lemma_waits_only_for_an_empty_queue(q: QueueView, n: nat)
    requires
        QueueView::fresh().becomes_in(q, n),
    ensures
        q.task ==> q.packets.len() == 0 && !q.finished,
    decreases n,
{
    if n > 0 {
        let mid = choose|mid: QueueView|
            QueueView::fresh().becomes_in(mid, (n - 1) as nat) && #[trigger] mid.steps_to(q);
        lemma_waits_only_for_an_empty_queue(mid, (n - 1) as nat);
    }
}

/// A datagram that could not be sent stays first in line.
pub proof fn a_refused_datagram_is_kept(q: QueueView, err: std::io::Error)
    ensures
        q.polled(Some(SendAttempt::WouldBlock)) == q,
        q.polled(Some(SendAttempt::Failed(err))) == q,
{
}

/// The queue that an output and its sender share.
pub struct KcpOutputInner {
    pkt_queue: VecDeque<(PeerAddr, Bytes)>,
    task: bool,
    wake: bool,
    is_finished: bool,
}

/// The datagrams of a queue with their bytes.
pub open spec fn packets_view(q: Seq<(PeerAddr, Bytes)>) -> Seq<(PeerAddr, Seq<u8>)> {
    q.map_values(|p: (PeerAddr, Bytes)| (p.0, bytes_contents(p.1)))
}

impl View for KcpOutputInner {
    type V = QueueView;

    closed spec fn view(&self) -> QueueView {
        QueueView {
            packets: packets_view(self.pkt_queue@),
            task: self.task,
            wake: self.wake,
            finished: self.is_finished,
        }
    }
}

impl KcpOutputInner {
    /// An empty queue.
    pub fn new() -> (res: KcpOutputInner)
        ensures
            res@ == QueueView::fresh(),
    {
        let res = KcpOutputInner { pkt_queue: VecDeque::new(), task: false, wake: false, is_finished: false };
        assert(packets_view(res.pkt_queue@) =~= Seq::empty());
        res
    }

    /// Notes that the sender, if it waits, is to be woken.
    pub fn notify(&mut self)
        ensures
            final(self)@ == old(self)@.notified(),
    {
        if self.task {
            self.task = false;
            self.wake = true;
        }
    }

    /// Whether the sender is to be woken, which is then no longer noted: the caller wakes it.
    pub fn take_wake(&mut self) -> (wake: bool)
        ensures
            wake == old(self)@.wake,
            final(self)@ == (QueueView { wake: false, ..old(self)@ }),
    {
        let wake = self.wake;
        self.wake = false;
        wake
    }

    /// Pushes a datagram.
    pub fn push_packet(&mut self, pkt: Bytes, peer: PeerAddr)
        ensures
            final(self)@ == old(self)@.pushed(peer, bytes_contents(pkt)),
    {
        self.pkt_queue.push_back((peer, pkt));
        assert(packets_view(self.pkt_queue@) =~= packets_view(old(self).pkt_queue@).push(
            (peer, bytes_contents(pkt)),
        ));
        self.notify();
    }

    /// Closes the queue: nothing more will be pushed.
    pub fn close(&mut self)
        ensures
            final(self)@ == (QueueView { finished: true, ..old(self)@.notified() }),
    {
        self.is_finished = true;
        self.notify();
    }

    /// Whether no datagram waits.
    pub fn is_empty(&self) -> (res: bool)
        ensures
            res == (self@.packets.len() == 0),
    {
        self.pkt_queue.len() == 0
    }

    /// Hands a datagram to the queue. Where none waits, the caller may have tried to send it at
    /// once, and says in `attempt` how that ended: a datagram that was sent, or that failed, is
    /// not queued. No datagram overtakes those that wait. Returns how many bytes were taken.
    pub fn send_or_push(&mut self, buf: &[u8], peer: PeerAddr, attempt: Option<SendAttempt>) -> (res: Result<
        usize,
        std::io::Error,
    >)
        requires
            attempt is Some ==> old(self)@.packets.len() == 0,
        ensures
            final(self)@ == old(self)@.offered(buf@, peer, attempt),
            res == match attempt {
                Some(SendAttempt::Sent(n)) => Ok::<usize, std::io::Error>(n),
                Some(SendAttempt::Failed(err)) => Err::<usize, std::io::Error>(err),
                _ => Ok::<usize, std::io::Error>(buf.len()),
            },
    {
        match attempt {
            Some(SendAttempt::Sent(n)) => {
                return Ok(n);
            },
            Some(SendAttempt::Failed(err)) => {
                return Err(err);
            },
            _ => {},
        }
        self.push_packet(bytes_from_buf(buf), peer);
        Ok(buf.len())
    }

    /// A turn of the sender. `last` says how its last attempt ended, none on the first turn or
    /// after a wait.
    pub fn poll(&mut self, last: Option<SendAttempt>) -> (res: QueueAction)
        ensures
            final(self)@ == old(self)@.polled(last),
            res@ == old(self)@.action(last),
    {
        match last {
            Some(SendAttempt::WouldBlock) => {
                return QueueAction::WaitWritable;
            },
            Some(SendAttempt::Failed(err)) => {
                return QueueAction::Fail(err);
            },
            Some(SendAttempt::Sent(_)) => {
                let _ = self.pkt_queue.pop_front();
                assert(self@ =~= old(self)@.popped());
            },
            None => {},
        }
        if self.pkt_queue.len() > 0 {
            let front = &self.pkt_queue[0];
            return QueueAction::Send(front.0, bytes_clone(&front.1));
        }
        if self.is_finished {
            QueueAction::Finished
        } else {
            self.task = true;
            QueueAction::WaitPackets
        }
    }
}

/// A shared queue is one that the queue it began as can become.
pub struct QueueHistory {
    /// The queue it began as.
    pub start: QueueView,
}

impl RwLockPredicate<KcpOutputInner> for QueueHistory {
    open spec fn inv(self, v: KcpOutputInner) -> bool {
        self.start.becomes(v@)
    }
}

/// A shared output queue.
///
/// Whoever holds a handle may change the queue at any time, so what a call through a handle says
/// is what holds whatever the queue has become since it began: it takes the queue from behind its
/// lock, makes one step on it, and puts it back. What the step makes of the queue is said of
/// [`KcpOutputInner`].
pub struct KcpOutputHandle {
    inner: Arc<RwLock<KcpOutputInner, QueueHistory>>,
}

impl Clone for KcpOutputHandle {
    fn clone(&self) -> (res: KcpOutputHandle)
        ensures
            res == *self,
    {
        KcpOutputHandle { inner: self.inner.clone() }
    }
}

impl KcpOutputHandle {
    /// The queue that this shared queue began as.
    pub closed spec fn start(self) -> QueueView {
        self.inner.pred().start
    }

    /// The queue behind a lock began as the lock says.
    pub(crate) proof fn lemma_start(self)
        ensures
            self.start() == self.lock().pred().start,
    {
    }

    /// The lock that the queue is behind.
    pub closed spec fn lock(self) -> RwLock<KcpOutputInner, QueueHistory> {
        *self.inner
    }

    /// The queue was taken from behind its lock as `before` and put back as `after`.
    pub closed spec fn turn(self, before: KcpOutputInner, after: KcpOutputInner) -> bool {
        exists|guard: WriteHandle<'_, KcpOutputInner, QueueHistory>| #[trigger]
            call_ensures(RwLock::<KcpOutputInner, QueueHistory>::acquire_write, (&*self.inner,), (before, guard))
                && call_ensures(WriteHandle::<KcpOutputInner, QueueHistory>::release_write, (guard, after), ())
    }

    /// A turn is one between taking the lock and giving it back.
    pub(crate) proof fn lemma_turn(self, before: KcpOutputInner, after: KcpOutputInner)
        requires
            self.turn(before, after),
        ensures
            exists|guard: WriteHandle<'_, KcpOutputInner, QueueHistory>| #[trigger]
                call_ensures(RwLock::<KcpOutputInner, QueueHistory>::acquire_write, (&self.lock(),), (before, guard))
                    && call_ensures(WriteHandle::<KcpOutputInner, QueueHistory>::release_write, (guard, after), ()),
    {
        let guard = choose|guard: WriteHandle<'_, KcpOutputInner, QueueHistory>| #[trigger]
            call_ensures(RwLock::<KcpOutputInner, QueueHistory>::acquire_write, (&*self.inner,), (before, guard))
                && call_ensures(WriteHandle::<KcpOutputInner, QueueHistory>::release_write, (guard, after), ());
        assert(call_ensures(
            RwLock::<KcpOutputInner, QueueHistory>::acquire_write,
            (&self.lock(),),
            (before, guard),
        ));
    }

    /// A new queue, empty and shared with nobody yet.
    pub fn new() -> (res: KcpOutputHandle)
        ensures
            res.start() == QueueView::fresh(),
    {
        let queue = KcpOutputInner::new();
        assert(QueueView::fresh().becomes_in(queue@, 0));
        KcpOutputHandle {
            inner: Arc::new(RwLock::new(queue, Ghost(QueueHistory { start: QueueView::fresh() }))),
        }
    }

    /// Hands a datagram to the queue, behind whatever it holds, as
    /// [`KcpOutputInner::send_or_push`] does. Returns how many bytes were taken.
    pub fn send_to(&self, buf: &[u8], peer: PeerAddr) -> (res: Result<usize, std::io::Error>)
        ensures
            res == Ok::<usize, std::io::Error>(buf.len()),
            exists|q: &mut KcpOutputInner|
                self.start().becomes((*q)@) && self.turn(*q, *final(q)) && #[trigger] call_ensures(
                    KcpOutputInner::send_or_push,
                    (q, buf, peer, None::<SendAttempt>),
                    res,
                ),
    {
        let (mut queue, guard) = self.inner.acquire_write();
        let ghost before = queue@;
        let res = queue.send_or_push(buf, peer, None);
        proof {
            lemma_becomes(self.start(), before, queue@);
        }
        guard.release_write(queue);
        res
    }

    /// A turn of the sender on the queue, whatever it holds, as [`KcpOutputInner::poll`] takes it.
    pub fn poll(&self, last: Option<SendAttempt>) -> (res: QueueAction)
        ensures
            exists|q: QueueView| self.start().becomes(q) && res@ == #[trigger] q.action(last),
            exists|q: &mut KcpOutputInner|
                self.start().becomes((*q)@) && self.turn(*q, *final(q)) && #[trigger] call_ensures(KcpOutputInner::poll, (q, last), res),
    {
        let (mut queue, guard) = self.inner.acquire_write();
        let ghost before = queue@;
        let res = queue.poll(last);
        proof {
            lemma_becomes(self.start(), before, queue@);
        }
        guard.release_write(queue);
        assert(res@ == before.action(last));
        res
    }

    /// Closes the queue: nothing more will be pushed.
    pub fn close(&self)
        ensures
            exists|q: &mut KcpOutputInner|
                self.start().becomes((*q)@) && self.turn(*q, *final(q)) && #[trigger] call_ensures(KcpOutputInner::close, (q,), ()),
    {
        let (mut queue, guard) = self.inner.acquire_write();
        let ghost before = queue@;
        queue.close();
        proof {
            lemma_becomes(self.start(), before, queue@);
        }
        guard.release_write(queue);
    }

    /// Whether the sender is to be woken, as [`KcpOutputInner::take_wake`] says it of the queue,
    /// whatever it has become.
    pub fn take_wake(&self) -> (wake: bool)
        ensures
            exists|q: QueueView| #[trigger] self.start().becomes(q) && wake == q.wake,
            exists|q: &mut KcpOutputInner|
                self.start().becomes((*q)@) && self.turn(*q, *final(q)) && #[trigger] call_ensures(KcpOutputInner::take_wake, (q,), wake),
    {
        let (mut queue, guard) = self.inner.acquire_write();
        let ghost before = queue@;
        let wake = queue.take_wake();
        proof {
            lemma_becomes(self.start(), before, queue@);
        }
        guard.release_write(queue);
        assert(self.start().becomes(before) && wake == before.wake);
        wake
    }
}

/// The output of a protocol machine: its datagrams go to one peer, by way of a queue.
///
/// Writing always succeeds. A socket that fails tells the one who sends the datagrams of the queue,
/// and that one hands the error on.
pub struct KcpOutput {
    inner: KcpOutputHandle,
    peer: PeerAddr,
}

impl KcpOutput {
    /// The queue of this output.
    pub closed spec fn handle(self) -> KcpOutputHandle {
        self.inner
    }

    /// The peer of this output.
    pub closed spec fn to(self) -> PeerAddr {
        self.peer
    }

    /// An output to a peer, with a queue of its own.
    pub fn new(peer: PeerAddr) -> (res: KcpOutput)
        ensures
            res.to() == peer,
            res.handle().start() == QueueView::fresh(),
    {
        KcpOutput::new_with_handle(KcpOutputHandle::new(), peer)
    }

    /// An output to a peer that shares a queue.
    pub fn new_with_handle(h: KcpOutputHandle, peer: PeerAddr) -> (res: KcpOutput)
        ensures
            res.handle() == h,
            res.to() == peer,
    {
        KcpOutput { inner: h, peer }
    }

    /// Queues a datagram for the peer, behind those that wait.
    pub fn put(&self, buf: &[u8]) -> (res: std::io::Result<usize>)
        ensures
            res == Ok::<usize, std::io::Error>(buf.len()),
            call_ensures(KcpOutputHandle::send_to, (&self.handle(), buf, self.to()), res),
    {
        self.inner.send_to(buf, self.peer)
    }

    /// The queue of this output.
    pub fn queue(&self) -> (res: KcpOutputHandle)
        ensures
            res == self.handle(),
    {
        self.inner.clone()
    }
}

impl Write for KcpOutput {
    /// Queues a datagram for the peer, behind those that wait. A machine writes each datagram by one
    /// call.
    fn write(&mut self, buf: &[u8]) -> (res: std::io::Result<usize>)
        ensures
            res == Ok::<usize, std::io::Error>(buf.len()),
            *final(self) == *old(self),
            call_ensures(KcpOutputHandle::send_to, (&old(self).handle(), buf, old(self).to()), res),
            call_ensures(KcpOutput::put, (&*old(self), buf), res),
    {
        self.put(buf)
    }

    fn flush(&mut self) -> (res: std::io::Result<()>)
        ensures
            res == Ok::<(), std::io::Error>(()),
            *final(self) == *old(self),
    {
        Ok(())
    }
}

} // verus!
