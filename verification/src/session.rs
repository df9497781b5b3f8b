//! Sessions: how one lives and ends, and the table of those that live.

use std::collections::HashMap;
use std::sync::Arc;
use std::time::Duration;

use kcp::Kcp;
use vstd::prelude::*;

use crate::config::KcpConfig;
use crate::engine::{complete, flush_of, kcp_check, kcp_state, update_of, KcpState};
use crate::error::KcpError;
use crate::output::{KcpOutput, PeerAddr};
use crate::skcp::{send_outcome, SharedKcp, SocketView};
use crate::utils::duration_nanos;

verus! {

broadcast use vstd::std_specs::hash::group_hash_axioms;

/// What happens to a session.
pub enum SessionEvent<'a> {
    /// A datagram came in on the session's own socket.
    Received(&'a [u8]),
    /// The session's own socket failed to receive.
    RecvFailed,
    /// A datagram came from the listener.
    Forwarded(&'a [u8]),
    /// The listener is gone.
    ListenerGone,
    /// The update timer fired, at the clock reading `current`; `later` is the reading when the
    /// update is done.
    Tick { current: u32, later: u32 },
}

/// What is to be done about it.
pub enum SessionAction {
    /// Nothing.
    Continue,
    /// Wake the sender, or the receiver, if they wait.
    Wake { sender: bool, receiver: bool },
    /// Report that a datagram was refused.
    Report(KcpError),
    /// Set the update timer to fire in so many milliseconds.
    Sleep(u32),
    /// End the session: wake the sender and the receiver, and give the number of the
    /// conversation to the one who wants to know, if there is one.
    Finish { notify: Option<u32> },
}

/// What a session knows.
#[verifier::ext_equal]
pub struct SessionView {
    /// The session's socket.
    pub socket: SocketView,
    /// Whether the session is to end.
    pub closed: bool,
    /// After how many nanoseconds without interaction it expires, if it does.
    pub expire: Option<nat>,
    /// Whether this is the client's end.
    pub is_client: bool,
}

impl SessionView {
    /// This is a new session at the server's end, with `peer`.
    pub open spec fn is_new(self, config: KcpConfig, conv: u32, peer: PeerAddr, now: u64) -> bool {
        &&& self == (SessionView {
            socket: SocketView::fresh(config, conv, self.socket.kcp.output, config.stream, now),
            closed: false,
            expire: expiry(config.session_expire),
            is_client: false,
        })
        &&& self.socket.kcp.output.to() == peer
    }

    /// This is a new session at the client's end, with `peer`.
    pub open spec fn is_new_client(self, config: KcpConfig, conv: u32, peer: PeerAddr, now: u64) -> bool {
        &&& self == (SessionView {
            socket: SocketView::fresh(config, conv, self.socket.kcp.output, config.stream, now),
            closed: false,
            expire: expiry(config.session_expire),
            is_client: true,
        })
        &&& self.socket.kcp.output.to() == peer
    }

    /// How long the session had no interaction, at time `now`.
    pub open spec fn idle(self, now: u64) -> nat {
        if now < self.socket.last_update {
            0
        } else {
            (now - self.socket.last_update) as nat
        }
    }

    /// Whether the session has been idle for longer than `times` its expiry. The client's end
    /// never is.
    pub open spec fn overdue(self, now: u64, times: nat) -> bool {
        !self.is_client && self.expire is Some && self.idle(now) > times * self.expire->Some_0
    }

    /// Whether the session ends when the timer fires: it is to end and has nothing left to send,
    /// or its peer has been silent for twice the expiry.
    pub open spec fn ends(self, now: u64) -> bool {
        self.closed && self.socket.kcp.wait_snd() == 0 || self.overdue(now, 2)
    }

    /// The session after its end: nothing can be sent or read any more.
    pub open spec fn ended(self, after: SessionView) -> bool {
        &&& after == (SessionView { socket: after.socket, ..self })
        &&& after.socket == (SocketView {
            kcp: after.socket.kcp,
            expired: true,
            send_task: false,
            ..self.socket
        })
        &&& if self.socket.kcp.updated {
            flush_of(self.socket.kcp, after.socket.kcp)
        } else {
            after.socket.kcp == self.socket.kcp
        }
    }

    /// What a turn of the timer makes of a session that does not end: one that is overdue is to
    /// end, and every one is updated at the clock reading `current`.
    pub open spec fn ticked(self, after: SessionView, now: u64, current: u32) -> bool {
        &&& after == (SessionView {
            socket: after.socket,
            closed: self.closed || self.overdue(now, 1),
            ..self
        })
        &&& after.socket == (SocketView { kcp: after.socket.kcp, ..self.socket })
        &&& update_of(self.socket.kcp, after.socket.kcp, current)
    }

    /// What a datagram makes of a session: where the machine took it, a sender that can go on
    /// no longer waits, nor does a receiver for whom a message is there.
    pub open spec fn fed(self, after: SessionView, datagram: Seq<u8>, now: u64, action: SessionAction) -> bool {
        let mid = self.socket.took(datagram, now);
        match self.socket.answer(datagram) {
            Ok(_) => {
                &&& after == (SessionView {
                    socket: (SocketView { send_task: mid.send_task && mid.congested(), ..mid }),
                    ..self
                })
                &&& action == (SessionAction::Wake {
                    sender: mid.send_task && !mid.congested(),
                    receiver: complete(mid.kcp.arrived),
                })
            },
            Err(err) => {
                &&& after == (SessionView { socket: mid, ..self })
                &&& action == SessionAction::Report(err)
            },
        }
    }
}

/// A session.
pub struct KcpSession {
    socket: SharedKcp,
    closed: bool,
    session_expire: Option<Duration>,
    is_client: bool,
}

/// Whether `idle` nanoseconds are more than an expiry, if there is one, and more than twice that.
pub(crate) fn outlasts(idle: u64, expire: Option<Duration>) -> (res: (bool, bool))
    ensures
        res.0 == (expire is Some && idle > duration_nanos(expire->Some_0)),
        res.1 == (expire is Some && idle > 2 * duration_nanos(expire->Some_0)),
{
    match expire {
        Some(expire) => {
            let expire: u128 = expire.as_nanos();
            let idle: u128 = idle as u128;
            if idle > expire {
                (true, idle - expire > expire)
            } else {
                (false, false)
            }
        },
        None => (false, false),
    }
}

/// The length of a time span, if there is one.
pub open spec fn expiry(d: Option<Duration>) -> Option<nat> {
    match d {
        Some(d) => Some(duration_nanos(d)),
        None => None,
    }
}

impl View for KcpSession {
    type V = SessionView;

    closed spec fn view(&self) -> SessionView {
        SessionView {
            socket: self.socket@,
            closed: self.closed,
            expire: expiry(self.session_expire),
            is_client: self.is_client,
        }
    }
}

impl KcpSession {
    /// The session's socket is sound.
    pub closed spec fn wf(&self) -> bool {
        self.socket.wf()
    }

    /// What holds of a sound session.
    pub(crate) proof fn lemma_wf(&self)
        requires
            self.wf(),
        ensures
            self@.socket.kcp.wf(),
    {
        self.socket.lemma_wf();
    }

    /// What is known of a session's time is known of a machine in its state.
    pub(crate) proof fn lemma_machine(&self, current: u32)
        ensures
            exists|k: Kcp<KcpOutput>|
                kcp_state(k) == self@.socket.kcp && #[trigger] kcp_check(k, current) == self.check(current),
    {
        self.socket.lemma_machine(current);
    }

    /// A session on a socket. The one at the server's end tells when it ends, and expires.
    pub fn new(socket: SharedKcp, session_expire: Option<Duration>, is_client: bool) -> (res: KcpSession)
        requires
            socket.wf(),
        ensures
            res.wf(),
            res@ == (SessionView {
                socket: socket@,
                closed: false,
                expire: expiry(session_expire),
                is_client,
            }),
            res.after_flush() == socket.after_flush(),
            forall|current: u32| #[trigger] res.after_update(current) == socket.after_update(current),
    {
        KcpSession { socket, closed: false, session_expire, is_client }
    }

    /// The session's socket.
    pub fn kcp_socket(&mut self) -> (res: &mut SharedKcp)
        requires
            old(self).wf(),
        ensures
            res@ == old(self)@.socket,
            res.after_flush() == old(self).after_flush(),
            forall|current: u32| #[trigger] res.after_update(current) == old(self).after_update(current),
            res.wf(),
            final(res).wf() ==> final(self).wf(),
            final(self)@ == (SessionView { socket: final(res)@, ..old(self)@ }),
            final(self).after_flush() == final(res).after_flush(),
            forall|current: u32| #[trigger] final(self).after_update(current) == final(res).after_update(current),
    {
        &mut self.socket
    }

    /// Whether this is the client's end.
    pub fn is_client(&self) -> (res: bool)
        ensures
            res == self@.is_client,
    {
        self.is_client
    }

    /// Has the session end as soon as nothing waits to be sent.
    pub fn close(&mut self)
        requires
            old(self).wf(),
        ensures
            final(self).wf(),
            final(self)@ == (SessionView { closed: true, ..old(self)@ }),
    {
        self.closed = true;
    }

    /// Feeds a datagram to the session.
    pub fn input(&mut self, datagram: &[u8], now: u64) -> (action: SessionAction)
        requires
            old(self).wf(),
        ensures
            final(self).wf(),
            old(self)@.fed(final(self)@, datagram@, now, action),
    {
        match self.socket.input(datagram, now) {
            Ok(_) => {
                let sender = self.socket.try_notify_writable();
                let receiver = self.socket.has_message();
                SessionAction::Wake { sender, receiver }
            },
            Err(err) => SessionAction::Report(err),
        }
    }

    /// Ends the session.
    fn finish(&mut self) -> (action: SessionAction)
        requires
            old(self).wf(),
        ensures
            final(self).wf(),
            old(self)@.ended(final(self)@),
            old(self)@.socket.kcp.updated ==> final(self)@.socket.kcp == old(self).after_flush(),
            action == (SessionAction::Finish {
                notify: if old(self)@.is_client { None } else { Some(old(self)@.socket.kcp.conv) },
            }),
    {
        // Close the socket.
        // Wake all pending tasks and let all send/recv return EOF
        let _ = self.socket.set_expired();
        if self.is_client {
            SessionAction::Finish { notify: None }
        } else {
            SessionAction::Finish { notify: Some(self.socket.conv()) }
        }
    }

    /// Whether the session has been idle for longer than its expiry, and for longer than twice
    /// that, at time `now`.
    fn is_overdue(&self, now: u64) -> (res: (bool, bool))
        ensures
            res.0 == self@.overdue(now, 1),
            res.1 == self@.overdue(now, 2),
    {
        if self.is_client {
            (false, false)
        } else {
            outlasts(self.socket.elapsed(now), self.session_expire)
        }
    }

    /// A turn of the update timer.
    fn tick(&mut self, now: u64, current: u32, later: u32) -> (action: SessionAction)
        requires
            old(self).wf(),
        ensures
            final(self).wf(),
            if old(self)@.ends(now) {
                &&& old(self)@.ended(final(self)@)
                &&& old(self)@.socket.kcp.updated ==> final(self)@.socket.kcp == old(self).after_flush()
                &&& action == (SessionAction::Finish {
                    notify: if old(self)@.is_client { None } else { Some(old(self)@.socket.kcp.conv) },
                })
            } else {
                &&& old(self)@.ticked(final(self)@, now, current)
                &&& final(self)@.socket.kcp == old(self).after_update(current)
                &&& action == SessionAction::Sleep(final(self).check(later))
                &&& final(self).check(later) <= old(self)@.socket.kcp.interval
            },
    {
        if self.closed && self.socket.can_close() {
            return self.finish();
        }
        // If this is a server stream, close it automatically after a period of time

        let (overdue, gone) = self.is_overdue(now);
        if overdue {
            if gone {
                // Force close. Client may have already gone.
                return self.finish();
            }
            self.closed = true;
        }
        match self.socket.update_at(current, later) {
            Ok(next) => SessionAction::Sleep(next),
            Err(_) => SessionAction::Sleep(10),
        }
    }

    /// The milliseconds that the session can be left alone, by the clock reading `current`.
    pub closed spec fn check(&self, current: u32) -> u32 {
        self.socket.check(current)
    }

    /// The state in which a flush leaves the session's machine.
    pub closed spec fn after_flush(&self) -> KcpState {
        self.socket.after_flush()
    }

    /// The state in which an update at the clock reading `current` leaves the session's machine.
    pub closed spec fn after_update(&self, current: u32) -> KcpState {
        self.socket.after_update(current)
    }

    /// A turn of the session's loop: something happens at time `now`.
    pub fn step(&mut self, event: SessionEvent<'_>, now: u64) -> (action: SessionAction)
        requires
            old(self).wf(),
        ensures
            final(self).wf(),
            match event {
                SessionEvent::Received(d) => old(self)@.fed(final(self)@, d@, now, action),
                SessionEvent::Forwarded(d) => old(self)@.fed(final(self)@, d@, now, action),
                SessionEvent::RecvFailed | SessionEvent::ListenerGone => action == SessionAction::Continue
                    && final(self)@ == old(self)@,
                SessionEvent::Tick { current, later } => if old(self)@.ends(now) {
                    &&& old(self)@.ended(final(self)@)
                    &&& old(self)@.socket.kcp.updated ==> final(self)@.socket.kcp == old(self).after_flush()
                    &&& action == (SessionAction::Finish {
                        notify: if old(self)@.is_client { None } else { Some(old(self)@.socket.kcp.conv) },
                    })
                } else {
                    &&& old(self)@.ticked(final(self)@, now, current)
                    &&& final(self)@.socket.kcp == old(self).after_update(current)
                    &&& action == SessionAction::Sleep(final(self).check(later))
                    &&& final(self).check(later) <= old(self)@.socket.kcp.interval
                },
            },
    {
        match event {
            SessionEvent::Received(datagram) => self.input(datagram, now),
            SessionEvent::Forwarded(datagram) => self.input(datagram, now),
            SessionEvent::RecvFailed => SessionAction::Continue,
            SessionEvent::ListenerGone => SessionAction::Continue,
            SessionEvent::Tick { current, later } => self.tick(now, current, later),
        }
    }
}

/// The client's end of a session ends only when it is closed.
pub proof fn clients_do_not_expire(s: SessionView, now: u64)
    requires
        s.is_client,
        !s.closed,
    ensures
        !s.ends(now),
{
}

/// A session without an expiry ends only when it is closed, and not before all is sent.
pub proof fn no_expiry_no_end(s: SessionView, now: u64)
    requires
        s.expire is None,
        !s.closed || s.socket.kcp.wait_snd() > 0,
    ensures
        !s.ends(now),
{
}

/// A server's session that is idle for longer than its expiry ends with one of the next turns of
/// its timer: the next but one if nothing waits to be sent by then, and in any case the first
/// one after twice the expiry.
pub proof fn idle_sessions_end(a: SessionView, b: SessionView, now: u64, current: u32, then: u64)
    requires
        !a.is_client,
        a.overdue(now, 1),
        !a.ends(now),
        a.ticked(b, now, current),
    ensures
        b.closed,
        b.socket.kcp.wait_snd() == 0 ==> b.ends(then),
        b.overdue(then, 2) ==> b.ends(then),
{
}

/// A session that has ended stays so: nothing can be sent on it, and it reads as ended.
pub proof fn the_end_is_final(a: SessionView, b: SessionView)
    requires
        a.ended(b),
    ensures
        b.socket.expired,
        forall|buf: Seq<u8>, now: u64, c: SocketView, res: Result<usize, KcpError>|
            #![trigger send_outcome(b.socket, c, buf, now, res)]
            send_outcome(b.socket, c, buf, now, res) ==> res is Err && c == b.socket,
        forall|now: u64| (#[trigger] b.socket.next_message(now)) == (b.socket, Ok::<Seq<u8>, KcpError>(Seq::empty())),
{
}

/// A receiver that is not woken has nothing to receive: wherever a read would give a message, a
/// message has arrived in full.
pub proof fn receivers_are_woken(v: SocketView, now: u64)
    requires
        !v.expired,
        v.next_message(now).1 is Ok,
    ensures
        complete(v.kcp.arrived),
{
}

/// A sender that is not woken has to wait on: wherever a send after the first one succeeds, the
/// session is not congested.
pub proof fn senders_are_woken(a: SocketView, b: SocketView, buf: Seq<u8>, now: u64, res: Result<usize, KcpError>)
    requires
        a.sent_first,
        send_outcome(a, b, buf, now, res),
        res is Ok,
    ensures
        !a.congested(),
{
}

/// What a table of sessions holds.
#[verifier::ext_equal]
#[verifier::reject_recursive_types(T)]
pub struct ManagerView<T> {
    /// The sessions, by conversation number.
    pub sessions: Map<u32, Arc<T>>,
    /// The number that was given out last.
    pub last: u32,
}

/// The conversation number behind `c`. Number 0 is not one.
pub open spec fn next_conv(c: u32) -> u32 {
    if c == u32::MAX {
        1
    } else {
        (c + 1) as u32
    }
}

/// The conversation number `n` places behind `c`.
pub open spec fn conv_after(c: u32, n: nat) -> u32
    decreases n,
{
    if n == 0 {
        c
    } else {
        next_conv(conv_after(c, (n - 1) as nat))
    }
}

impl<T> ManagerView<T> {
    /// Whether a conversation number is free.
    pub open spec fn has_room(self) -> bool {
        exists|c: u32| c != 0 && !#[trigger] self.sessions.dom().contains(c)
    }

    /// Whether `conv` is the first free number behind the one given out last, `n` places on.
    pub open spec fn first_free(self, conv: u32, n: nat) -> bool {
        &&& n > 0
        &&& conv == conv_after(self.last, n)
        &&& conv != 0
        &&& !self.sessions.dom().contains(conv)
        &&& forall|m: nat| 0 < m < n ==> self.sessions.dom().contains(#[trigger] conv_after(self.last, m))
    }

    /// What looking for session `conv`, and making it where there is none, comes to.
    pub open spec fn got_or_created(self, after: ManagerView<T>, conv: u32, res: (Arc<T>, bool)) -> bool {
        if self.sessions.dom().contains(conv) {
            after == self && res == (self.sessions[conv], false)
        } else {
            after == (ManagerView { sessions: self.sessions.insert(conv, res.0), ..self }) && res.1
        }
    }
}

/// How many steps lead from number `c` to number `target`.
spec fn steps(c: u32, target: u32) -> int {
    if c < target {
        target - c
    } else {
        u32::MAX - c + target
    }
}

/// A table has room exactly if not all numbers but 0 are taken.
proof fn lemma_room(s: Set<u32>)
    requires
        s.finite(),
    ensures
        s.remove(0).len() < u32::MAX <==> exists|c: u32| c != 0 && !#[trigger] s.contains(c),
{
    let t = s.remove(0);
    let as_int = |c: u32| c as int;
    let image = t.map(as_int);
    let all = vstd::set_lib::set_int_range(1, 0x1_0000_0000);
    vstd::set_lib::lemma_int_range(1, 0x1_0000_0000);
    assert(vstd::relations::injective(as_int));
    vstd::set_lib::lemma_map_size(t, image, as_int);
    assert(image.subset_of(all));
    if exists|c: u32| c != 0 && !#[trigger] s.contains(c) {
        let c = choose|c: u32| c != 0 && !#[trigger] s.contains(c);
        assert(image.subset_of(all.remove(c as int)));
        vstd::set_lib::lemma_len_subset(image, all.remove(c as int));
    } else {
        assert forall|i: int| all.contains(i) implies image.contains(i) by {
            let c = i as u32;
            assert(s.contains(c));
            assert(t.contains(c));
            assert(as_int(c) == i);
        }
        vstd::set_lib::lemma_len_subset(all, image);
    }
}

/// The sessions that live, by conversation number.
pub struct KcpSessionManager<T> {
    sessions: HashMap<u32, Arc<T>>,
    next_free_conv: u32,
}

impl<T> View for KcpSessionManager<T> {
    type V = ManagerView<T>;

    closed spec fn view(&self) -> ManagerView<T> {
        ManagerView { sessions: self.sessions@, last: self.next_free_conv }
    }
}

impl<T> KcpSessionManager<T> {
    /// An empty table.
    pub fn new() -> (res: KcpSessionManager<T>)
        ensures
            res@ == (ManagerView { sessions: Map::<u32, Arc<T>>::empty(), last: 0 }),
    {
        KcpSessionManager { sessions: HashMap::new(), next_free_conv: 0 }
    }

    /// Forgets a session.
    pub fn close_conv(&mut self, conv: u32)
        ensures
            final(self)@ == (ManagerView { sessions: old(self)@.sessions.remove(conv), ..old(self)@ }),
    {
        self.sessions.remove(&conv);
    }

    /// Whether a conversation has a session.
    pub fn has_conv(&self, conv: u32) -> (res: bool)
        ensures
            res == self@.sessions.dom().contains(conv),
    {
        self.sessions.contains_key(&conv)
    }

    /// Whether a conversation number is free.
    pub fn has_free_conv(&self) -> (res: bool)
        ensures
            res == self@.has_room(),
    {
        let ghost numbers = self.sessions@.dom();
        proof {
            lemma_room(numbers);
            if numbers.contains(0) {
                assert(numbers.remove(0).len() == numbers.len() - 1);
            } else {
                assert(numbers.remove(0) =~= numbers);
            }
            if exists|c: u32| c != 0 && !#[trigger] numbers.contains(c) {
                let c = choose|c: u32| c != 0 && !#[trigger] numbers.contains(c);
                assert(!self@.sessions.dom().contains(c));
            }
        }
        let taken: usize = self.sessions.len();
        if self.sessions.contains_key(&0) {
            taken - 1 < u32::MAX as usize
        } else {
            taken < u32::MAX as usize
        }
    }

    /// Gives out the first free conversation number behind the one given out last.
    pub fn alloc_conv(&mut self) -> (conv: u32)
        requires
            old(self)@.has_room(),
        ensures
            exists|n: nat| #[trigger] old(self)@.first_free(conv, n),
            final(self)@ == (ManagerView { last: conv, ..old(self)@ }),
    {
        let ghost target = choose|c: u32| c != 0 && !#[trigger] self.sessions@.dom().contains(c);
        let ghost mut n: nat = 0;
        loop
            invariant
                self.sessions@ == old(self).sessions@,
                target != 0,
                !self.sessions@.dom().contains(target),
                self.next_free_conv == conv_after(old(self).next_free_conv, n),
                forall|m: nat|
                    0 < m <= n ==> self.sessions@.dom().contains(
                        #[trigger] conv_after(old(self).next_free_conv, m),
                    ),
            decreases steps(self.next_free_conv, target),
        {
            let mut c: u32 = self.next_free_conv.wrapping_add(1);
            if c == 0 {
                c = c.wrapping_add(1);
            }
            let ghost from = self.next_free_conv;
            self.next_free_conv = c;
            proof {
                assert(c == next_conv(from));
                n = n + 1;
                assert(c == conv_after(old(self).next_free_conv, n));
            }
            if self.sessions.get(&self.next_free_conv).is_none() {
                let conv = self.next_free_conv;
                assert(old(self)@.first_free(conv, n));
                return conv;
            }
        }
    }

    /// Gives out a free conversation number, if there is one.
    pub fn try_alloc_conv(&mut self) -> (res: Option<u32>)
        ensures
            res is Some <==> old(self)@.has_room(),
            res is Some ==> exists|n: nat| #[trigger] old(self)@.first_free(res->Some_0, n),
            final(self)@ == match res {
                Some(conv) => (ManagerView { last: conv, ..old(self)@ }),
                None => old(self)@,
            },
    {
        if self.has_free_conv() {
            Some(self.alloc_conv())
        } else {
            None
        }
    }

    /// The session of a conversation. Where there is none, `spawn` sets one up on a new server's
    /// session with `peer`. Returns the session, and whether it is new.
    pub fn get_or_create<F: FnOnce(KcpSession) -> Arc<T>>(
        &mut self,
        config: &KcpConfig,
        conv: u32,
        peer: PeerAddr,
        now: u64,
        spawn: F,
    ) -> (res: (Arc<T>, bool))
        requires
            old(self)@.sessions.dom().contains(conv) || config.valid(),
            forall|s: KcpSession| s.wf() ==> #[trigger] call_requires(spawn, (s,)),
        ensures
            old(self)@.got_or_created(final(self)@, conv, res),
            res.1 ==> exists|s: KcpSession| #[trigger]
                s@.is_new(*config, conv, peer, now) && call_ensures(spawn, (s,), res.0),
    {
        match self.sessions.get(&conv) {
            Some(session) => {
                return (session.clone(), false);
            },
            None => {},
        }
        let socket = SharedKcp::new(config, conv, peer, config.stream, now);
        let fresh = KcpSession::new(socket, config.session_expire, false);
        assert(fresh@.is_new(*config, conv, peer, now));
        let ghost made = fresh;
        let session = spawn(fresh);
        assert(call_ensures(spawn, (made,), session));
        self.sessions.insert(conv, session.clone());
        (session, true)
    }
}

/// A conversation keeps its session: whoever asks for it again gets the same one.
pub proof fn a_conversation_keeps_its_session<T>(
    a: ManagerView<T>,
    b: ManagerView<T>,
    c: ManagerView<T>,
    conv: u32,
    first: (Arc<T>, bool),
    second: (Arc<T>, bool),
)
    requires
        a.got_or_created(b, conv, first),
        b.got_or_created(c, conv, second),
    ensures
        second == (first.0, false),
        c == b,
{
}

/// Making a session for one conversation leaves the others alone.
pub proof fn sessions_are_apart<T>(a: ManagerView<T>, b: ManagerView<T>, conv: u32, res: (Arc<T>, bool), other: u32)
    requires
        a.got_or_created(b, conv, res),
        other != conv,
    ensures
        b.sessions.dom().contains(other) == a.sessions.dom().contains(other),
        a.sessions.dom().contains(other) ==> b.sessions[other] == a.sessions[other],
{
}

/// Numbers go round from 1 to the largest.
proof fn lemma_conv_after(c: u32, n: nat)
    requires
        c != 0,
    ensures
        conv_after(c, n) == (c - 1 + n) % (u32::MAX as int) + 1,
    decreases n,
{
    if n > 0 {
        lemma_conv_after(c, (n - 1) as nat);
        let before = c - 1 + n - 1;
        vstd::arithmetic::div_mod::lemma_add_mod_noop(before, 1, u32::MAX as int);
        vstd::arithmetic::div_mod::lemma_small_mod(1, u32::MAX as nat);
        if before % (u32::MAX as int) + 1 == u32::MAX {
            vstd::arithmetic::div_mod::lemma_mod_self_0(u32::MAX as int);
        } else {
            vstd::arithmetic::div_mod::lemma_small_mod(
                (before % (u32::MAX as int) + 1) as nat,
                u32::MAX as nat,
            );
        }
    } else {
        vstd::arithmetic::div_mod::lemma_small_mod((c - 1) as nat, u32::MAX as nat);
    }
}

/// Numbers go up by one as long as there is a larger one.
proof fn lemma_conv_up(c: u32, k: nat)
    requires
        c + k <= u32::MAX,
    ensures
        conv_after(c, k) == c + k,
    decreases k,
{
    if k > 0 {
        lemma_conv_up(c, (k - 1) as nat);
    }
}

/// Behind the largest number they begin with 1 again.
proof fn lemma_conv_round(c: u32, j: nat)
    requires
        1 <= j <= u32::MAX,
    ensures
        conv_after(c, (u32::MAX - c + j) as nat) == j,
    decreases j,
{
    if j == 1 {
        lemma_conv_up(c, (u32::MAX - c) as nat);
    } else {
        lemma_conv_round(c, (j - 1) as nat);
    }
}

/// All numbers between the one given out last and the first free one are taken.
pub(crate) proof fn lemma_first_free<T>(a: ManagerView<T>, conv: u32, n: nat, other: u32)
    requires
        a.first_free(conv, n),
        other != 0,
        if a.last < conv {
            a.last < other < conv
        } else {
            other > a.last || other < conv
        },
    ensures
        a.sessions.dom().contains(other),
{
    let k = steps(a.last, other) as nat;
    let end = steps(a.last, conv) as nat;
    if a.last < other {
        lemma_conv_up(a.last, k);
    } else {
        lemma_conv_round(a.last, other as nat);
    }
    assert(conv_after(a.last, k) == other);
    assert(0 < k < end);
    if n < end {
        if a.last + n <= u32::MAX {
            lemma_conv_up(a.last, n);
        } else {
            lemma_conv_round(a.last, (a.last + n - u32::MAX) as nat);
        }
    }
    assert(k < n);
}

/// A number that is still free is given out twice in a row only if it is the only free one.
pub proof fn free_numbers_take_turns<T>(a: ManagerView<T>, conv: u32, n: nat, m: nat, other: u32)
    requires
        a.first_free(conv, n),
        (ManagerView { last: conv, ..a }).first_free(conv, m),
        other != 0,
        other != conv,
    ensures
        a.sessions.dom().contains(other),
{
    let b = ManagerView { last: conv, ..a };
    let max = u32::MAX as int;
    let k = steps(conv, other) as nat;
    lemma_conv_after(conv, k);
    lemma_conv_after(conv, m);
    if conv < other {
        vstd::arithmetic::div_mod::lemma_small_mod((other - 1) as nat, u32::MAX as nat);
    } else {
        vstd::arithmetic::div_mod::lemma_small_mod((other - 1) as nat, u32::MAX as nat);
        vstd::arithmetic::div_mod::lemma_mod_add_multiples_vanish(other - 1, max);
    }
    assert(conv_after(conv, k) == other);
    if m < max {
        if conv - 1 + m < max {
            vstd::arithmetic::div_mod::lemma_small_mod((conv - 1 + m) as nat, u32::MAX as nat);
        } else {
            vstd::arithmetic::div_mod::lemma_mod_add_multiples_vanish(conv - 1 + m - max, max);
            vstd::arithmetic::div_mod::lemma_small_mod((conv - 1 + m - max) as nat, u32::MAX as nat);
        }
    }
    assert(0 < k < m);
    assert(b.sessions.dom().contains(conv_after(b.last, k)));
}

} // verus!
