//! The KCP protocol machine, which the `kcp` crate implements.
//!
//! A machine is opaque here. What a session reads from it is its [`KcpState`], and each
//! call into the crate says what it does to that state.
//!
//! The crate adds and subtracts sequence numbers, fragment numbers and clock readings in the width
//! of their fields, and means them to wrap. It is built without overflow checks, as
//! `extras/cargo/config.toml` sets it for every profile, and the contracts here are those of that
//! build: its sums wrap, and none of them stops the program.

use kcp::{Kcp, KcpResult};
use vstd::prelude::*;

use crate::output::KcpOutput;

verus! {

/// `kcp::Kcp`: a protocol machine, of which nothing is seen but its [`kcp_state`].
#[verifier::external_type_specification]
#[verifier::external_body]
#[verifier::reject_recursive_types(Output)]
pub struct ExKcp<Output>(kcp::Kcp<Output>);

/// The bytes of a segment header.
pub const KCP_OVERHEAD: usize = 24;

/// The smallest MTU that a machine takes.
pub const MIN_MTU: usize = 50;

/// The number of segments that one message may not reach.
pub const MAX_SEGMENTS: usize = 128;

/// A fragment of a message: how many fragments of the message follow it, and its bytes.
pub type Fragment = (u8, Seq<u8>);

/// What a session knows of a protocol machine.
#[verifier::ext_equal]
pub struct KcpState {
    /// Where its datagrams go.
    pub output: KcpOutput,
    /// The conversation number.
    pub conv: u32,
    /// Whether the next segment of another conversation sets the conversation number.
    pub waiting_conv: bool,
    /// The size of the largest datagram.
    pub mtu: usize,
    /// The size of the largest segment payload.
    pub mss: usize,
    /// The send window, in segments.
    pub snd_wnd: u16,
    /// The receive window, in segments.
    pub rcv_wnd: u16,
    /// Whether retransmission timeouts grow slowly.
    pub nodelay: bool,
    /// The shortest retransmission timeout, in milliseconds.
    pub min_rto: u32,
    /// The time between two flushes, in milliseconds.
    pub interval: u32,
    /// How many later acknowledgements make a segment go out again, 0 for none.
    pub fast_resend: u32,
    /// Whether congestion control is off.
    pub no_cwnd: bool,
    /// Whether short messages are packed together.
    pub stream: bool,
    /// Whether the machine has been updated once.
    pub updated: bool,
    /// The clock reading of the last update.
    pub current: u32,
    /// The fragments that wait for a place in the send window, first in line first.
    pub queued: Seq<Fragment>,
    /// The sequence number of the next segment to be sent.
    pub snd_nxt: u32,
    /// The sequence numbers of the segments that are out and not acknowledged, oldest first.
    pub in_flight: Seq<u32>,
    /// The fragments that have arrived in order, the next to be read first.
    pub arrived: Seq<Fragment>,
    /// The sequence number of the next fragment in order.
    pub rcv_nxt: u32,
    /// The fragments that are held behind a gap, by sequence number.
    pub early: Map<u32, Fragment>,
    /// The acknowledgements that are due: the sequence number and the time stamp of each.
    pub acks: Seq<(u32, u32)>,
}

/// How far `a` lies ahead of `b` on the circle of sequence numbers.
pub open spec fn ahead(a: u32, b: u32) -> int {
    (a - b) % 0x1_0000_0000
}

/// The sequence number `k` places behind `n`.
pub open spec fn number_after(n: u32, k: nat) -> u32 {
    ((n + k) % 0x1_0000_0000) as u32
}

impl KcpState {
    /// The state of a new machine.
    pub open spec fn fresh(conv: u32, output: KcpOutput, stream: bool) -> KcpState {
        KcpState {
            output,
            conv,
            waiting_conv: false,
            mtu: 1400,
            mss: 1376,
            snd_wnd: 32,
            rcv_wnd: 128,
            nodelay: false,
            min_rto: 100,
            interval: 100,
            fast_resend: 0,
            no_cwnd: false,
            stream,
            updated: false,
            current: 0,
            queued: Seq::empty(),
            snd_nxt: 0,
            in_flight: Seq::empty(),
            arrived: Seq::empty(),
            rcv_nxt: 0,
            early: Map::empty(),
            acks: Seq::empty(),
        }
    }

    /// How many segments wait to be sent or acknowledged.
    pub open spec fn wait_snd(self) -> nat {
        self.queued.len() + self.in_flight.len()
    }

    /// Whether the machine has room for payload, and holds no more than can be held.
    pub open spec fn wf(self) -> bool {
        &&& MIN_MTU <= self.mtu
        &&& self.mss == self.mtu - KCP_OVERHEAD
        &&& self.early.dom().finite()
    }

    /// How many fragments are held, in order or not.
    pub open spec fn held(self) -> nat {
        self.arrived.len() + self.early.dom().len()
    }

    /// The state after those of the fragments held behind a gap that are next in order, one after
    /// the other, have joined the ones that have arrived, as far as the receive window has room.
    pub open spec fn settled(self) -> KcpState
        decreases self.early.dom().len(),
    {
        if self.early.dom().finite() && self.early.dom().contains(self.rcv_nxt) && self.arrived.len()
            < self.rcv_wnd {
            KcpState {
                arrived: self.arrived.push(self.early[self.rcv_nxt]),
                early: self.early.remove(self.rcv_nxt),
                rcv_nxt: number_after(self.rcv_nxt, 1),
                ..self
            }.settled()
        } else {
            self
        }
    }

    /// Whether a fragment with this number is one of those that the receive window admits.
    pub open spec fn admits(self, sn: u32) -> bool {
        ahead(sn, self.rcv_nxt) < self.rcv_wnd
    }

    /// The state with a fragment held, unless one with the same number is.
    pub open spec fn holding(self, sn: u32, f: Fragment) -> KcpState {
        if self.early.dom().contains(sn) {
            self
        } else {
            KcpState { early: self.early.insert(sn, f), ..self }
        }
    }

    /// The state after a fragment came: one outside the receive window, or that is held already,
    /// is dropped.
    pub open spec fn with_fragment(self, sn: u32, f: Fragment) -> KcpState {
        if self.admits(sn) {
            self.holding(sn, f).settled()
        } else {
            self
        }
    }

    /// The state after its first message was read.
    pub open spec fn after_read(self) -> KcpState {
        KcpState { arrived: after_message(self.arrived), ..self }.settled()
    }

    /// The state after the empty messages before the first that is not empty were read.
    pub open spec fn past_empty(self) -> KcpState
        decreases self.held(),
    {
        if self.early.dom().finite() && complete(self.arrived) && message(self.arrived).len() == 0 {
            proof {
                lemma_message_fragments(self.arrived);
                lemma_after_read(self);
            }
            self.after_read().past_empty()
        } else {
            self
        }
    }

    /// The bytes that the last waiting fragment can still take, in stream mode.
    pub open spec fn tail_room(self) -> nat {
        if self.stream && self.queued.len() > 0 && self.queued.last().1.len() < self.mss {
            (self.mss - self.queued.last().1.len()) as nat
        } else {
            0
        }
    }

    /// The bytes of a message of `len` bytes that go into the last waiting fragment.
    pub open spec fn packed(self, len: nat) -> nat {
        if len < self.tail_room() {
            len
        } else {
            self.tail_room()
        }
    }

    /// How many fragments a message of `len` bytes adds to those that wait.
    pub open spec fn segments_for(self, len: nat) -> nat {
        let rest = (len - self.packed(len)) as nat;
        if self.stream && rest == 0 {
            0
        } else {
            pieces(rest, self.mss as nat)
        }
    }

    /// The state with the last waiting fragment filled up with the start of a message.
    pub open spec fn topped_up(self, buf: Seq<u8>) -> KcpState {
        if self.tail_room() == 0 {
            self
        } else {
            let last = (0u8, self.queued.last().1 + buf.take(self.packed(buf.len()) as int));
            KcpState { queued: self.queued.update(self.queued.len() - 1, last), ..self }
        }
    }

    /// The state with a message queued: the last waiting fragment is filled up, and the rest is cut
    /// into fragments.
    pub open spec fn with_message(self, buf: Seq<u8>) -> KcpState {
        let rest = buf.skip(self.packed(buf.len()) as int);
        let topped = self.topped_up(buf);
        if self.stream && rest.len() == 0 {
            topped
        } else {
            KcpState { queued: topped.queued + fragments(rest, self.mss as nat, self.stream), ..topped }
        }
    }

    /// Whether a message of `len` bytes is too long to be sent.
    pub open spec fn too_big(self, len: nat) -> bool {
        self.segments_for(len) >= MAX_SEGMENTS
    }
}

/// How many pieces of at most `mss` bytes make up `len` bytes; an empty message is one piece.
pub open spec fn pieces(len: nat, mss: nat) -> nat {
    if len <= mss {
        1
    } else {
        ((len + mss - 1) / mss as int) as nat
    }
}

/// A message cut into fragments of `mss` bytes, of which the last may be shorter. In stream mode
/// each of them counts as a message.
pub open spec fn fragments(b: Seq<u8>, mss: nat, stream: bool) -> Seq<Fragment>
    decreases b.len(),
{
    if b.len() <= mss || mss == 0 {
        seq![(0u8, b)]
    } else {
        let rest = fragments(b.skip(mss as int), mss, stream);
        seq![(if stream { 0u8 } else { rest.len() as u8 }, b.take(mss as int))] + rest
    }
}

/// The fragments of a message are as many as they should be, and together they are the message.
pub proof fn lemma_fragments(b: Seq<u8>, mss: nat, stream: bool)
    requires
        mss > 0,
    ensures
        fragments(b, mss, stream).len() == pieces(b.len(), mss),
        join(fragments(b, mss, stream)) == b,
    decreases b.len(),
{
    let q = fragments(b, mss, stream);
    reveal_with_fuel(join, 2);
    if b.len() <= mss {
        assert(join(q) =~= b);
    } else {
        let rest = b.skip(mss as int);
        lemma_fragments(rest, mss, stream);
        assert(q.drop_first() =~= fragments(rest, mss, stream));
        assert(b =~= b.take(mss as int) + rest);
        let n = b.len() as int;
        let m = mss as int;
        vstd::arithmetic::div_mod::lemma_div_plus_one(n - 1, m);
        assert((n - 1 + m) / m == (n - 1) / m + 1);
        if rest.len() <= mss {
            assert((n - 1) / m == 1) by (nonlinear_arith)
                requires
                    m > 0,
                    m < n,
                    n - m <= m,
            ;
        } else {
            assert(rest.len() + mss - 1 == n - 1);
        }
    }
}

/// The fragments of a message count down to its last one, whatever comes behind.
pub proof fn lemma_fragments_count_down(b: Seq<u8>, mss: nat, behind: Seq<Fragment>)
    requires
        mss > 0,
        pieces(b.len(), mss) <= 256,
    ensures
        fragments(b, mss, false)[0].0 == pieces(b.len(), mss) - 1,
        message_fragments(fragments(b, mss, false) + behind) == pieces(b.len(), mss),
    decreases b.len(),
{
    let q = fragments(b, mss, false);
    lemma_fragments(b, mss, false);
    if b.len() > mss {
        let rest = b.skip(mss as int);
        lemma_fragments(rest, mss, false);
        lemma_fragments_count_down(rest, mss, behind);
        assert((q + behind).drop_first() =~= fragments(rest, mss, false) + behind);
    }
}

/// `b` is `a` after the acknowledgements that were due, and some of the waiting fragments, the
/// first in line, were sent out, under the sequence numbers that follow each other.
pub open spec fn flushed(a: KcpState, b: KcpState) -> bool {
    let moved = (a.queued.len() - b.queued.len()) as nat;
    &&& b.queued.len() <= a.queued.len()
    &&& b == (KcpState {
        queued: a.queued.skip(moved as int),
        snd_nxt: number_after(a.snd_nxt, moved),
        in_flight: a.in_flight + Seq::new(moved, |i: int| number_after(a.snd_nxt, i as nat)),
        acks: Seq::empty(),
        ..a
    })
}

/// `b` is what a flush makes of a machine in state `a`.
pub open spec fn flush_of(a: KcpState, b: KcpState) -> bool {
    &&& flushed(a, b)
    &&& exists|m: Kcp<KcpOutput>| kcp_state(m) == a && b == #[trigger] kcp_flushed(m)
}

/// A machine in state `a` whose clock reads `current`.
pub open spec fn at_time(a: KcpState, current: u32) -> KcpState {
    KcpState { updated: true, current, ..a }
}

/// `b` is `a` after its clock was set, and it was flushed or not. The first time it is flushed.
pub open spec fn updated(a: KcpState, b: KcpState, current: u32) -> bool {
    flushed(at_time(a, current), b) || a.updated && b == at_time(a, current)
}

/// `b` is what an update makes of a machine in state `a` at the clock reading `current`.
pub open spec fn update_of(a: KcpState, b: KcpState, current: u32) -> bool {
    &&& updated(a, b, current)
    &&& exists|m: Kcp<KcpOutput>| kcp_state(m) == a && b == #[trigger] kcp_updated(m, current)
}

/// The segments that are still out after all before number `una` were acknowledged.
pub open spec fn acknowledged_before(q: Seq<u32>, una: u32) -> Seq<u32>
    decreases q.len(),
{
    if q.len() > 0 && 0 < ahead(una, q[0]) < 0x8000_0000 {
        acknowledged_before(q.drop_first(), una)
    } else {
        q
    }
}

/// The segments that are still out after number `sn` was acknowledged. A search for it ends at
/// the first larger number.
pub open spec fn acknowledged(q: Seq<u32>, sn: u32) -> Seq<u32>
    decreases q.len(),
{
    if q.len() == 0 || sn < q[0] {
        q
    } else if sn == q[0] {
        q.drop_first()
    } else {
        seq![q[0]] + acknowledged(q.drop_first(), sn)
    }
}

/// The number of fragments of the first message: up to and with the one that none follows.
pub open spec fn message_fragments(q: Seq<Fragment>) -> nat
    decreases q.len(),
{
    if q.len() == 0 {
        0
    } else if q[0].0 == 0 {
        1
    } else {
        1 + message_fragments(q.drop_first())
    }
}

/// The bytes of fragments, put together.
pub open spec fn join(q: Seq<Fragment>) -> Seq<u8>
    decreases q.len(),
{
    if q.len() == 0 {
        Seq::empty()
    } else {
        q[0].1 + join(q.drop_first())
    }
}

/// The first message.
pub open spec fn message(q: Seq<Fragment>) -> Seq<u8> {
    join(q.take(message_fragments(q) as int))
}

/// What is left behind the first message.
pub open spec fn after_message(q: Seq<Fragment>) -> Seq<Fragment> {
    q.skip(message_fragments(q) as int)
}

/// A first message has a fragment, and no more than there are.
pub proof fn lemma_message_fragments(q: Seq<Fragment>)
    ensures
        message_fragments(q) <= q.len(),
        q.len() > 0 ==> message_fragments(q) > 0,
    decreases q.len(),
{
    if q.len() > 0 && q[0].0 != 0 {
        lemma_message_fragments(q.drop_first());
    }
}

/// Fragments joined in two parts are the parts joined.
pub proof fn lemma_join_split(q: Seq<Fragment>, n: int)
    requires
        0 <= n <= q.len(),
    ensures
        join(q) == join(q.take(n)) + join(q.skip(n)),
    decreases n,
{
    if n == 0 {
        assert(q.take(0) =~= Seq::empty());
        assert(q.skip(0) =~= q);
        assert(join(q) =~= Seq::<u8>::empty() + join(q));
    } else {
        lemma_join_split(q.drop_first(), n - 1);
        assert(q.take(n).drop_first() =~= q.drop_first().take(n - 1));
        assert(q.skip(n) =~= q.drop_first().skip(n - 1));
        assert(join(q) =~= join(q.take(n)) + join(q.skip(n)));
    }
}

/// All that has arrived is the first message and what is behind it.
pub proof fn lemma_message_first(q: Seq<Fragment>)
    ensures
        join(q) == message(q) + join(after_message(q)),
{
    lemma_message_fragments(q);
    lemma_join_split(q, message_fragments(q) as int);
}

/// The bytes of the fragments that have arrived begin with those of the first ones.
pub proof fn lemma_join_prefix(a: Seq<Fragment>, b: Seq<Fragment>)
    requires
        a.is_prefix_of(b),
    ensures
        join(a).is_prefix_of(join(b)),
{
    lemma_join_split(b, a.len() as int);
    assert(b.take(a.len() as int) =~= a);
}

/// Settling only moves fragments, in order, from those held behind a gap to those that have
/// arrived.
pub proof fn lemma_settled(s: KcpState)
    ensures
        s.settled() == (KcpState {
            arrived: s.settled().arrived,
            early: s.settled().early,
            rcv_nxt: s.settled().rcv_nxt,
            ..s
        }),
        s.arrived.is_prefix_of(s.settled().arrived),
        s.settled().early.submap_of(s.early),
        s.early.dom().finite() ==> s.settled().early.dom().finite() && s.settled().held() == s.held(),
    decreases s.early.dom().len(),
{
    if s.early.dom().finite() && s.early.dom().contains(s.rcv_nxt) && s.arrived.len() < s.rcv_wnd {
        lemma_settled(
            KcpState {
                arrived: s.arrived.push(s.early[s.rcv_nxt]),
                early: s.early.remove(s.rcv_nxt),
                rcv_nxt: number_after(s.rcv_nxt, 1),
                ..s
            },
        );
    }
}

/// What reading a message leaves.
pub proof fn lemma_after_read(s: KcpState)
    ensures
        s.after_read() == (KcpState {
            arrived: s.after_read().arrived,
            early: s.after_read().early,
            rcv_nxt: s.after_read().rcv_nxt,
            ..s
        }),
        after_message(s.arrived).is_prefix_of(s.after_read().arrived),
        s.early.dom().finite() ==> s.after_read().early.dom().finite() && s.after_read().held() == s.held()
            - message_fragments(s.arrived),
{
    lemma_message_fragments(s.arrived);
    lemma_settled(KcpState { arrived: after_message(s.arrived), ..s });
}

/// Skipping empty messages loses no byte: those that had arrived are still first.
pub proof fn lemma_past_empty(s: KcpState)
    ensures
        s.past_empty() == (KcpState {
            arrived: s.past_empty().arrived,
            early: s.past_empty().early,
            rcv_nxt: s.past_empty().rcv_nxt,
            ..s
        }),
        join(s.arrived).is_prefix_of(join(s.past_empty().arrived)),
        s.early.dom().finite() ==> {
            &&& s.past_empty().early.dom().finite()
            &&& complete(s.past_empty().arrived) ==> message(s.past_empty().arrived).len() > 0
        },
        s.past_empty().past_empty() == s.past_empty(),
    decreases s.held(),
{
    if s.early.dom().finite() && complete(s.arrived) && message(s.arrived).len() == 0 {
        lemma_message_fragments(s.arrived);
        lemma_after_read(s);
        lemma_message_first(s.arrived);
        assert(join(s.arrived) =~= join(after_message(s.arrived)));
        lemma_join_prefix(after_message(s.arrived), s.after_read().arrived);
        lemma_past_empty(s.after_read());
    }
}

/// The fragments that are held behind those that have arrived, from number `n` on up to the first
/// gap.
pub open spec fn following(early: Map<u32, Fragment>, n: u32) -> Seq<Fragment>
    decreases early.dom().len(),
{
    if early.dom().finite() && early.dom().contains(n) {
        seq![early[n]] + following(early.remove(n), number_after(n, 1))
    } else {
        Seq::empty()
    }
}

/// All fragments that a machine holds in order: those that have arrived, and those that follow them
/// up to the first gap.
pub open spec fn in_order(s: KcpState) -> Seq<Fragment> {
    s.arrived + following(s.early, s.rcv_nxt)
}

/// Settling changes nothing about what is held in order.
pub proof fn lemma_settled_in_order(s: KcpState)
    ensures
        in_order(s.settled()) == in_order(s),
    decreases s.early.dom().len(),
{
    if s.early.dom().finite() && s.early.dom().contains(s.rcv_nxt) && s.arrived.len() < s.rcv_wnd {
        lemma_settled_in_order(one_settled(s));
        assert(in_order(one_settled(s)) =~= in_order(s));
    }
}

/// Reading the first message takes its bytes, and no others, from what is held in order.
pub proof fn lemma_read_in_order(s: KcpState)
    ensures
        join(in_order(s)) == message(s.arrived) + join(in_order(s.after_read())),
{
    let k = message_fragments(s.arrived) as int;
    let mid = KcpState { arrived: after_message(s.arrived), ..s };
    lemma_message_fragments(s.arrived);
    lemma_settled_in_order(mid);
    lemma_join_split(in_order(s), k);
    assert(in_order(s).take(k) =~= s.arrived.take(k));
    assert(in_order(s).skip(k) =~= in_order(mid));
}

/// Skipping empty messages takes no byte from what is held in order.
pub proof fn lemma_past_empty_in_order(s: KcpState)
    ensures
        join(in_order(s.past_empty())) == join(in_order(s)),
    decreases s.held(),
{
    if s.early.dom().finite() && complete(s.arrived) && message(s.arrived).len() == 0 {
        lemma_message_fragments(s.arrived);
        lemma_after_read(s);
        lemma_read_in_order(s);
        assert(join(in_order(s)) =~= join(in_order(s.after_read())));
        lemma_past_empty_in_order(s.after_read());
    }
}

/// A machine in state `a` comes to state `b` by reading `n` empty messages.
pub open spec fn skips_to(a: KcpState, b: KcpState, n: nat) -> bool
    decreases n,
{
    if n == 0 {
        b == a
    } else {
        complete(a.arrived) && message(a.arrived).len() == 0 && skips_to(a.after_read(), b, (n - 1) as nat)
    }
}

/// Behind its empty messages a machine is after reading as many as there are.
pub proof fn lemma_skips(s: KcpState)
    ensures
        exists|n: nat| #[trigger] skips_to(s, s.past_empty(), n),
    decreases s.held(),
{
    if s.early.dom().finite() && complete(s.arrived) && message(s.arrived).len() == 0 {
        lemma_message_fragments(s.arrived);
        lemma_after_read(s);
        lemma_skips(s.after_read());
        let n = choose|n: nat| #[trigger] skips_to(s.after_read(), s.past_empty(), n);
        assert(skips_to(s, s.past_empty(), n + 1));
    } else {
        assert(skips_to(s, s.past_empty(), 0));
    }
}

/// A message of `len` bytes takes as many segments of `mss` bytes as hold it, and no more.
pub proof fn lemma_pieces(len: nat, mss: nat)
    requires
        mss > 0,
    ensures
        pieces(len, mss) >= 1,
        len <= pieces(len, mss) * mss,
        pieces(len, mss) > 1 ==> (pieces(len, mss) - 1) * mss < len,
        pieces(len, mss) >= MAX_SEGMENTS <==> len > 127 * mss,
{
    if len > mss {
        let n = len as int;
        let m = mss as int;
        let k = pieces(len, mss) as int;
        assert(k == (n + m - 1) / m && k >= 0) by (nonlinear_arith)
            requires
                k == ((n + m - 1) / m) as nat,
                n > m,
                m > 0,
        ;
        assert(k * m <= n + m - 1 < (k + 1) * m) by (nonlinear_arith)
            requires
                k == (n + m - 1) / m,
                m > 0,
        ;
        assert((k + 1) * m == k * m + m && (k - 1) * m == k * m - m) by (nonlinear_arith);
        assert(k >= 1) by (nonlinear_arith)
            requires
                n + m - 1 < (k + 1) * m,
                n > m,
                m > 0,
        ;
        if k >= 128 {
            assert((k - 1) * m >= 127 * m) by (nonlinear_arith)
                requires
                    k >= 128,
                    m > 0,
            ;
        } else {
            assert(k * m <= 127 * m) by (nonlinear_arith)
                requires
                    k <= 127,
                    m > 0,
            ;
        }
    }
}

/// A datagram changes the conversation, what is out and what was received, and nothing else.
pub proof fn lemma_scan(s: KcpState, b: Seq<u8>, at: int)
    ensures
        ({
            let t = scan(s, b, at).state;
            &&& t == (KcpState {
                conv: t.conv,
                waiting_conv: t.waiting_conv,
                in_flight: t.in_flight,
                arrived: t.arrived,
                early: t.early,
                rcv_nxt: t.rcv_nxt,
                acks: t.acks,
                ..s
            })
            &&& s.arrived.is_prefix_of(t.arrived)
            &&& t.in_flight.len() <= s.in_flight.len()
            &&& s.early.dom().finite() ==> t.early.dom().finite()
            &&& !s.waiting_conv ==> t.conv == s.conv && !t.waiting_conv
        }),
    decreases b.len() - at,
{
    if 0 <= at && b.len() - at >= KCP_OVERHEAD && b.len() - at - KCP_OVERHEAD >= le32(b, at + 20) {
        let found = le32(b, at);
        let t = KcpState { conv: found, waiting_conv: s.waiting_conv && found == s.conv, ..s };
        let out = acknowledged_before(s.in_flight, le32(b, at + 16));
        let data = b.subrange(at + KCP_OVERHEAD, at + KCP_OVERHEAD + le32(b, at + 20));
        let acks = if ahead(le32(b, at + 12), number_after(s.rcv_nxt, s.rcv_wnd as nat)) >= 0x8000_0000 {
            s.acks.push((le32(b, at + 12), le32(b, at + 8)))
        } else {
            s.acks
        };
        lemma_settled((KcpState { in_flight: out, acks, ..t }).holding(le32(b, at + 12), (b[at + 5], data)));
        acknowledgements_add_nothing(s.in_flight, le32(b, at + 16));
        acknowledgements_add_nothing(out, le32(b, at + 12));
        lemma_scan(segment_taken(t, b, at), b, at + KCP_OVERHEAD + le32(b, at + 20));
    }
}

/// The bytes of fragments with one more behind them.
proof fn lemma_join_push(q: Seq<Fragment>, f: Fragment)
    ensures
        join(q.push(f)) == join(q) + f.1,
{
    lemma_join_split(q.push(f), q.len() as int);
    assert(q.push(f).take(q.len() as int) =~= q);
    assert(q.push(f).skip(q.len() as int) =~= seq![f]);
    reveal_with_fuel(join, 2);
    assert(join(seq![f]) =~= f.1);
}

/// A queued message adds its bytes behind those that wait, in as many fragments as it takes.
pub proof fn lemma_with_message(s: KcpState, buf: Seq<u8>)
    requires
        s.mss > 0,
    ensures
        s.topped_up(buf).queued.len() == s.queued.len(),
        join(s.topped_up(buf).queued) == join(s.queued) + buf.take(s.packed(buf.len()) as int),
        s.with_message(buf).queued.len() == s.queued.len() + s.segments_for(buf.len()),
        join(s.with_message(buf).queued) == join(s.queued) + buf,
        s.with_message(buf) == (KcpState { queued: s.with_message(buf).queued, ..s }),
{
    let n = s.packed(buf.len()) as int;
    let rest = buf.skip(n);
    let topped = s.topped_up(buf).queued;
    if s.tail_room() == 0 {
        assert(buf.take(0) =~= Seq::empty());
        assert(join(s.queued) + buf.take(0) =~= join(s.queued));
    } else {
        let init = s.queued.drop_last();
        let last = s.queued.last();
        assert(s.queued =~= init.push(last));
        assert(topped =~= init.push((0u8, last.1 + buf.take(n))));
        lemma_join_push(init, last);
        lemma_join_push(init, (0u8, last.1 + buf.take(n)));
        assert(join(init) + (last.1 + buf.take(n)) =~= join(init) + last.1 + buf.take(n));
    }
    assert(buf =~= buf.take(n) + rest);
    if s.stream && rest.len() == 0 {
        assert(buf.take(n) =~= buf);
    } else {
        let added = fragments(rest, s.mss as nat, s.stream);
        lemma_fragments(rest, s.mss as nat, s.stream);
        lemma_join_split(topped + added, topped.len() as int);
        assert((topped + added).take(topped.len() as int) =~= topped);
        assert((topped + added).skip(topped.len() as int) =~= added);
        assert(join(s.queued) + buf.take(n) + rest =~= join(s.queued) + buf);
    }
}

/// Whether the first message counts as arrived in full, by the number that its first fragment bears:
/// as many fragments must be there as follow it. A machine adds one to that number in eight bits, so
/// that behind the largest number none are missed.
pub open spec fn complete(q: Seq<Fragment>) -> bool {
    q.len() > 0 && (q[0].0 == 255 || q[0].0 < q.len())
}

/// The number in four bytes at `at`, least significant byte first.
pub open spec fn le32(b: Seq<u8>, at: int) -> u32 {
    (b[at] + 256 * b[at + 1] + 65536 * b[at + 2] + 16777216 * b[at + 3]) as u32
}

/// The command of a segment that carries data.
pub const CMD_PUSH: u8 = 81;

/// The command of a segment that acknowledges one.
pub const CMD_ACK: u8 = 82;

/// The command of a segment that tells the size of the receive window.
pub const CMD_WINS: u8 = 84;

/// What a machine makes of a datagram.
pub struct Scan {
    /// The bytes taken, or the error at the first header that is refused.
    pub result: KcpResult<usize>,
    /// The state afterwards.
    pub state: KcpState,
}

/// The state after the segment at `at`, whose header is in order, was taken.
///
/// Every segment acknowledges all before one of its numbers; one that carries data brings a
/// fragment, for which an acknowledgement is due unless it lies beyond the receive window, and an
/// acknowledgement acknowledges one more segment.
pub open spec fn segment_taken(s: KcpState, b: Seq<u8>, at: int) -> KcpState {
    let sn = le32(b, at + 12);
    let out = acknowledged_before(s.in_flight, le32(b, at + 16));
    if b[at + 4] == CMD_PUSH {
        let data = b.subrange(at + KCP_OVERHEAD, at + KCP_OVERHEAD + le32(b, at + 20));
        let beyond = number_after(s.rcv_nxt, s.rcv_wnd as nat);
        let acks = if ahead(sn, beyond) >= 0x8000_0000 {
            s.acks.push((sn, le32(b, at + 8)))
        } else {
            s.acks
        };
        (KcpState { in_flight: out, acks, ..s }).with_fragment(sn, (b[at + 5], data))
    } else if b[at + 4] == CMD_ACK {
        KcpState { in_flight: acknowledged(out, sn), ..s }
    } else {
        KcpState { in_flight: out, ..s }
    }
}

/// Takes the segments of `b` from `at` on, up to the first whose header is refused. A machine that
/// waits for its conversation number takes the first other one.
pub open spec fn scan(s: KcpState, b: Seq<u8>, at: int) -> Scan
    decreases b.len() - at,
{
    if at < 0 || b.len() - at < KCP_OVERHEAD {
        Scan { result: Ok(at as usize), state: s }
    } else {
        let found = le32(b, at);
        let len = le32(b, at + 20);
        let left = b.len() - at - KCP_OVERHEAD;
        let t = KcpState { conv: found, waiting_conv: s.waiting_conv && found == s.conv, ..s };
        if found != s.conv && !s.waiting_conv {
            Scan { result: Err(kcp::Error::ConvInconsistent(s.conv, found)), state: s }
        } else if left < len {
            Scan { result: Err(kcp::Error::InvalidSegmentDataSize(len as usize, left as usize)), state: t }
        } else if !(CMD_PUSH <= b[at + 4] <= CMD_WINS) {
            Scan { result: Err(kcp::Error::UnsupportedCmd(b[at + 4])), state: t }
        } else {
            scan(segment_taken(t, b, at), b, at + KCP_OVERHEAD + len)
        }
    }
}

/// What a machine makes of a datagram: one shorter than a header is refused.
pub open spec fn verdict(s: KcpState, b: Seq<u8>) -> Scan {
    if b.len() < KCP_OVERHEAD {
        Scan { result: Err(kcp::Error::InvalidSegmentSize(b.len() as usize)), state: s }
    } else {
        scan(s, b, 0)
    }
}

/// The call failed with `err`.
pub open spec fn refused<T>(res: KcpResult<T>, err: kcp::Error) -> bool {
    res is Err && res->Err_0 == err
}

/// The state after the next fragment in order, which is held, has joined those that have arrived.
spec fn one_settled(s: KcpState) -> KcpState {
    KcpState {
        arrived: s.arrived.push(s.early[s.rcv_nxt]),
        early: s.early.remove(s.rcv_nxt),
        rcv_nxt: number_after(s.rcv_nxt, 1),
        ..s
    }
}

/// Nothing more moves once the fragments have settled.
proof fn lemma_settled_twice(s: KcpState)
    ensures
        s.settled().settled() == s.settled(),
    decreases s.early.dom().len(),
{
    if s.early.dom().finite() && s.early.dom().contains(s.rcv_nxt) && s.arrived.len() < s.rcv_wnd {
        lemma_settled_twice(one_settled(s));
    }
}

/// A fragment that is held stays held, or lies behind those that are still to come, closer than
/// half the circle.
proof fn lemma_settled_known(s: KcpState, sn: u32)
    requires
        s.early.dom().finite(),
        s.early.dom().contains(sn),
    ensures
        s.settled().early.dom().contains(sn) || 1 <= ahead(s.settled().rcv_nxt, sn) <= s.rcv_wnd - s.arrived.len(),
    decreases s.early.dom().len(),
{
    if s.early.dom().contains(s.rcv_nxt) && s.arrived.len() < s.rcv_wnd {
        if sn == s.rcv_nxt {
            lemma_settled_advances(one_settled(s));
        } else {
            lemma_settled_known(one_settled(s), sn);
        }
    }
}

/// As many numbers are passed as fragments join those that have arrived.
proof fn lemma_settled_advances(s: KcpState)
    ensures
        s.settled().rcv_nxt == number_after(s.rcv_nxt, (s.settled().arrived.len() - s.arrived.len()) as nat),
        s.arrived.len() <= s.settled().arrived.len(),
        s.arrived.len() <= s.rcv_wnd ==> s.settled().arrived.len() <= s.rcv_wnd,
    decreases s.early.dom().len(),
{
    if s.early.dom().finite() && s.early.dom().contains(s.rcv_nxt) && s.arrived.len() < s.rcv_wnd {
        lemma_settled_advances(one_settled(s));
    }
}

/// A fragment that is not held is not passed.
proof fn lemma_settled_stops(s: KcpState, sn: u32)
    requires
        !s.early.dom().contains(sn),
    ensures
        !s.settled().early.dom().contains(sn),
        ahead(sn, s.settled().rcv_nxt) <= ahead(sn, s.rcv_nxt),
    decreases s.early.dom().len(),
{
    if s.early.dom().finite() && s.early.dom().contains(s.rcv_nxt) && s.arrived.len() < s.rcv_wnd {
        lemma_settled_stops(one_settled(s), sn);
    }
}

/// It makes no difference whether fragments settle before another one comes.
proof fn lemma_settled_late(s: KcpState, sn: u32, f: Fragment)
    requires
        s.early.dom().finite(),
        !s.early.dom().contains(sn),
    ensures
        s.settled().holding(sn, f).settled() == s.holding(sn, f).settled(),
    decreases s.early.dom().len(),
{
    if s.early.dom().contains(s.rcv_nxt) && s.arrived.len() < s.rcv_wnd {
        lemma_settled_late(one_settled(s), sn, f);
        let with = s.holding(sn, f);
        assert(with.early.dom().finite());
        assert(one_settled(with).early =~= one_settled(s).holding(sn, f).early);
        assert(one_settled(with).arrived =~= one_settled(s).holding(sn, f).arrived);
        assert(one_settled(with) == one_settled(s).holding(sn, f));
    } else {
        lemma_settled_twice(s);
    }
}

/// A fragment that is held, or was, makes no difference when it comes again.
proof fn lemma_known_fragment(s: KcpState, sn: u32, f: Fragment)
    requires
        s.early.dom().finite(),
        s.early.dom().contains(sn),
    ensures
        s.settled().with_fragment(sn, f) == s.settled(),
{
    lemma_settled_known(s, sn);
    lemma_settled_twice(s);
    lemma_settled(s);
}

/// A fragment that comes twice is taken once, whatever it carries the second time.
pub proof fn a_fragment_is_taken_once(s: KcpState, sn: u32, f: Fragment, again: Fragment)
    requires
        s.wf(),
    ensures
        s.with_fragment(sn, f).with_fragment(sn, again) == s.with_fragment(sn, f),
{
    if s.admits(sn) {
        lemma_known_fragment(s.holding(sn, f), sn, again);
    }
}

/// Fragments may come in any order: two that the receive window admits leave the same behind
/// whichever comes first.
pub proof fn fragments_may_come_in_any_order(s: KcpState, a: u32, f: Fragment, b: u32, g: Fragment)
    requires
        s.wf(),
        a != b,
        s.admits(a),
        s.admits(b),
    ensures
        s.with_fragment(a, f).with_fragment(b, g) == s.with_fragment(b, g).with_fragment(a, f),
{
    lemma_two_fragments(s, a, f, b, g);
    lemma_two_fragments(s, b, g, a, f);
    assert(s.holding(a, f).holding(b, g).early =~= s.holding(b, g).holding(a, f).early);
}

/// Two fragments that come one after the other settle as if both were held first.
proof fn lemma_two_fragments(s: KcpState, a: u32, f: Fragment, b: u32, g: Fragment)
    requires
        s.wf(),
        a != b,
        s.admits(a),
        s.admits(b),
    ensures
        s.with_fragment(a, f).with_fragment(b, g) == s.holding(a, f).holding(b, g).settled(),
{
    let with = s.holding(a, f);
    lemma_settled(with);
    if s.early.dom().contains(b) {
        lemma_known_fragment(with, b, g);
    } else {
        lemma_settled_stops(with, b);
        lemma_settled_late(with, b, g);
    }
}

/// The next fragment in order arrives at once, if there is room for it.
pub proof fn the_next_fragment_arrives(s: KcpState, f: Fragment)
    requires
        s.wf(),
        s.early.dom().is_empty(),
        s.arrived.len() < s.rcv_wnd,
    ensures
        s.with_fragment(s.rcv_nxt, f).arrived == s.arrived.push(f),
        s.with_fragment(s.rcv_nxt, f).rcv_nxt == number_after(s.rcv_nxt, 1),
        s.with_fragment(s.rcv_nxt, f).early.dom().is_empty(),
{
    let with = s.holding(s.rcv_nxt, f);
    assert(with.early.remove(s.rcv_nxt).dom() =~= Set::empty());
    reveal_with_fuel(KcpState::settled, 2);
}

/// Of segments that are out in ascending order, the one that is acknowledged is out no longer and
/// all others are.
pub proof fn an_acknowledgement_frees_its_segment(q: Seq<u32>, i: int)
    requires
        0 <= i < q.len(),
        forall|x: int, y: int| 0 <= x < y < q.len() ==> #[trigger] q[x] < #[trigger] q[y],
    ensures
        acknowledged(q, q[i]) == q.remove(i),
    decreases q.len(),
{
    if i > 0 {
        assert(q[0] < q[i]);
        assert forall|x: int, y: int| 0 <= x < y < q.len() - 1 implies #[trigger] q.drop_first()[x]
            < #[trigger] q.drop_first()[y] by {
            assert(q[x + 1] < q[y + 1]);
        }
        an_acknowledgement_frees_its_segment(q.drop_first(), i - 1);
        assert(q.remove(i) =~= seq![q[0]] + q.drop_first().remove(i - 1));
    } else {
        assert(q.remove(0) =~= q.drop_first());
    }
}

/// Acknowledgements only ever end the wait of segments that are out.
pub proof fn acknowledgements_add_nothing(q: Seq<u32>, sn: u32)
    ensures
        acknowledged(q, sn).len() <= q.len(),
        acknowledged_before(q, sn).len() <= q.len(),
        forall|n: u32| #[trigger] acknowledged(q, sn).contains(n) ==> q.contains(n),
    decreases q.len(),
{
    if q.len() > 0 {
        let rest = q.drop_first();
        acknowledgements_add_nothing(rest, sn);
        assert forall|n: u32| #[trigger] acknowledged(q, sn).contains(n) implies q.contains(n) by {
            let i = choose|i: int| 0 <= i < acknowledged(q, sn).len() && acknowledged(q, sn)[i] == n;
            if sn < q[0] {
            } else if sn == q[0] {
                assert(q[i + 1] == n);
            } else if i == 0 {
                assert(q[0] == n);
            } else {
                assert(acknowledged(rest, sn)[i - 1] == n);
                assert(acknowledged(rest, sn).contains(n));
                let j = choose|j: int| 0 <= j < rest.len() && rest[j] == n;
                assert(q[j + 1] == n);
            }
        }
    }
}

/// A message is read as it was sent, whatever was queued before it: where its fragments have
/// arrived in order, with whatever behind them, the first message is the one that was sent, and it
/// is there in full.
pub proof fn a_message_is_read_as_it_was_sent(a: KcpState, buf: Seq<u8>, b: KcpState, behind: Seq<Fragment>)
    requires
        a.wf(),
        !a.stream,
        !a.too_big(buf.len()),
        b.arrived == a.with_message(buf).queued.skip(a.queued.len() as int) + behind,
    ensures
        complete(b.arrived),
        message(b.arrived) == buf,
        after_message(b.arrived) == behind,
{
    let q = fragments(buf, a.mss as nat, false);
    assert(buf.skip(0) =~= buf);
    assert(a.with_message(buf).queued.skip(a.queued.len() as int) =~= q);
    lemma_fragments(buf, a.mss as nat, false);
    lemma_fragments_count_down(buf, a.mss as nat, behind);
    assert(b.arrived.take(q.len() as int) =~= q);
    assert(b.arrived.skip(q.len() as int) =~= behind);
}

/// A machine with messages queued, one after the other.
pub open spec fn with_messages(s: KcpState, messages: Seq<Seq<u8>>) -> KcpState
    decreases messages.len(),
{
    if messages.len() == 0 {
        s
    } else {
        with_messages(s, messages.drop_last()).with_message(messages.last())
    }
}

/// What is sent is read as it was sent, however it was cut or packed: where all that was queued has
/// arrived in order, its bytes are those that waited before, followed by the messages, one behind
/// the other.
pub proof fn a_stream_is_read_as_it_was_sent(a: KcpState, messages: Seq<Seq<u8>>, b: KcpState)
    requires
        a.wf(),
        b.arrived == with_messages(a, messages).queued,
    ensures
        join(b.arrived) == join(a.queued) + messages.flatten(),
{
    lemma_with_messages(a, messages);
}

/// Messages are queued behind what waits, and nothing else changes.
proof fn lemma_with_messages(a: KcpState, messages: Seq<Seq<u8>>)
    requires
        a.wf(),
    ensures
        with_messages(a, messages) == (KcpState { queued: with_messages(a, messages).queued, ..a }),
        join(with_messages(a, messages).queued) == join(a.queued) + messages.flatten(),
    decreases messages.len(),
{
    if messages.len() == 0 {
        assert(join(a.queued) + messages.flatten() =~= join(a.queued));
    } else {
        let before = messages.drop_last();
        let last = messages.last();
        lemma_with_messages(a, before);
        lemma_with_message(with_messages(a, before), last);
        before.lemma_flatten_push(last);
        assert(before.push(last) =~= messages);
        assert(join(a.queued) + before.flatten() + last =~= join(a.queued) + (before.flatten() + last));
    }
}

/// The state of a protocol machine.
pub uninterp spec fn kcp_state(k: Kcp<KcpOutput>) -> KcpState;

/// The state that `Kcp::flush` leaves. How many fragments go out is in it: that depends on the windows
/// of both ends.
pub uninterp spec fn kcp_flushed(k: Kcp<KcpOutput>) -> KcpState;

/// The state that `Kcp::update` leaves, at the clock reading `current`.
pub uninterp spec fn kcp_updated(k: Kcp<KcpOutput>, current: u32) -> KcpState;

/// What `Kcp::check` returns: the milliseconds that a machine can be left alone, by the clock
/// reading `current`.
pub uninterp spec fn kcp_check(k: Kcp<KcpOutput>, current: u32) -> u32;

/// `Kcp::new`: a machine that keeps messages apart, with the crate's default settings.
#[verifier::external_body]
pub(crate) fn kcp_new(conv: u32, output: KcpOutput) -> (k: Kcp<KcpOutput>)
    ensures
        kcp_state(k) == KcpState::fresh(conv, output, false),
{
    Kcp::new(conv, output)
}

/// `Kcp::new_stream`: a machine that packs short messages, with the crate's default settings.
#[verifier::external_body]
pub(crate) fn kcp_new_stream(conv: u32, output: KcpOutput) -> (k: Kcp<KcpOutput>)
    ensures
        kcp_state(k) == KcpState::fresh(conv, output, true),
{
    Kcp::new_stream(conv, output)
}

/// `Kcp::set_mtu`: an MTU under 50 is refused and changes nothing; another one is taken, and a
/// segment may carry what the header leaves of it. The machine's buffer grows to three
/// datagrams and headers, so that many bytes must be allocatable.
#[verifier::external_body]
pub(crate) fn kcp_set_mtu(k: &mut Kcp<KcpOutput>, mtu: usize) -> (res: KcpResult<()>)
    requires
        (mtu + KCP_OVERHEAD) * 3 <= isize::MAX,
    ensures
        mtu < MIN_MTU ==> refused(res, kcp::Error::InvalidMtu(mtu)) && kcp_state(*final(k))
            == kcp_state(*old(k)),
        mtu >= MIN_MTU ==> res is Ok && kcp_state(*final(k)) == (KcpState {
            mtu,
            mss: (mtu - KCP_OVERHEAD) as usize,
            ..kcp_state(*old(k))
        }),
{
    k.set_mtu(mtu)
}

/// The flush interval that a machine takes for a wanted one: between 10 and 5000 milliseconds.
pub open spec fn clamp_interval(interval: i32) -> u32 {
    if interval < 10 {
        10
    } else if interval > 5000 {
        5000
    } else {
        interval as u32
    }
}

/// `Kcp::set_nodelay`: sets the four timing switches; a negative `resend` leaves fast resend as
/// it was.
#[verifier::external_body]
pub(crate) fn kcp_set_nodelay(k: &mut Kcp<KcpOutput>, nodelay: bool, interval: i32, resend: i32, nc: bool)
    ensures
        kcp_state(*final(k)) == (KcpState {
            nodelay,
            min_rto: if nodelay { 30 } else { 100 },
            interval: clamp_interval(interval),
            fast_resend: if resend >= 0 { resend as u32 } else { kcp_state(*old(k)).fast_resend },
            no_cwnd: nc,
            ..kcp_state(*old(k))
        }),
{
    k.set_nodelay(nodelay, interval, resend, nc)
}

/// `Kcp::set_wndsize`: a window of 0 is left as it was, and the receive window is never smaller
/// than 128.
#[verifier::external_body]
pub(crate) fn kcp_set_wndsize(k: &mut Kcp<KcpOutput>, sndwnd: u16, rcvwnd: u16)
    ensures
        kcp_state(*final(k)) == (KcpState {
            snd_wnd: if sndwnd > 0 { sndwnd } else { kcp_state(*old(k)).snd_wnd },
            rcv_wnd: if rcvwnd == 0 {
                kcp_state(*old(k)).rcv_wnd
            } else if rcvwnd < 128 {
                128
            } else {
                rcvwnd
            },
            ..kcp_state(*old(k))
        }),
{
    k.set_wndsize(sndwnd, rcvwnd)
}

/// `Kcp::input_conv`: the machine takes its conversation number from the peer.
#[verifier::external_body]
pub(crate) fn kcp_input_conv(k: &mut Kcp<KcpOutput>)
    ensures
        kcp_state(*final(k)) == (KcpState { waiting_conv: true, ..kcp_state(*old(k)) }),
{
    k.input_conv()
}

/// `Kcp::waiting_conv`: whether the conversation number is still to come from the peer.
#[verifier::external_body]
pub(crate) fn kcp_waiting_conv(k: &Kcp<KcpOutput>) -> (res: bool)
    ensures
        res == kcp_state(*k).waiting_conv,
{
    k.waiting_conv()
}

/// `Kcp::conv`: the conversation number.
#[verifier::external_body]
pub(crate) fn kcp_conv(k: &Kcp<KcpOutput>) -> (res: u32)
    ensures
        res == kcp_state(*k).conv,
{
    k.conv()
}

/// `Kcp::mtu`: the size of the largest datagram.
#[verifier::external_body]
pub(crate) fn kcp_mtu(k: &Kcp<KcpOutput>) -> (res: usize)
    ensures
        res == kcp_state(*k).mtu,
{
    k.mtu()
}

/// `Kcp::mss`: the size of the largest segment payload.
#[verifier::external_body]
pub(crate) fn kcp_mss(k: &Kcp<KcpOutput>) -> (res: usize)
    ensures
        res == kcp_state(*k).mss,
{
    k.mss()
}

/// `Kcp::snd_wnd`: the send window.
#[verifier::external_body]
pub(crate) fn kcp_snd_wnd(k: &Kcp<KcpOutput>) -> (res: u16)
    ensures
        res == kcp_state(*k).snd_wnd,
{
    k.snd_wnd()
}

/// `Kcp::wait_snd`: how many segments wait to be sent or acknowledged.
#[verifier::external_body]
pub(crate) fn kcp_wait_snd(k: &Kcp<KcpOutput>) -> (res: usize)
    ensures
        res == kcp_state(*k).wait_snd(),
{
    k.wait_snd()
}

/// `Kcp::peeksize`: the size of the first message, if it has arrived. One is added to the number of
/// its first fragment, in a sum that wraps.
#[verifier::external_body]
pub(crate) fn kcp_peeksize(k: &Kcp<KcpOutput>) -> (res: KcpResult<usize>)
    ensures
        kcp_state(*k).arrived.len() == 0 ==> refused(res, kcp::Error::RecvQueueEmpty),
        kcp_state(*k).arrived.len() > 0 && !complete(kcp_state(*k).arrived) ==> refused(res, kcp::Error::ExpectingFragment),
        complete(kcp_state(*k).arrived) ==> res is Ok && res->Ok_0 == message(kcp_state(*k).arrived).len(),
{
    k.peeksize()
}

/// `Kcp::recv`: moves the first message to the front of `buf` and leaves the rest of `buf` as it
/// was. Nothing changes where no message has arrived in full, or the first one does not fit. One is
/// added to the number of its first fragment, and to the sequence number as fragments join those
/// that have arrived, in sums that wrap.
#[verifier::external_body]
pub(crate) fn kcp_recv(k: &mut Kcp<KcpOutput>, buf: &mut [u8]) -> (res: KcpResult<usize>)
    ensures
        final(buf)@.len() == old(buf)@.len(),
        res is Err ==> kcp_state(*final(k)) == kcp_state(*old(k)) && final(buf)@ == old(buf)@,
        kcp_state(*old(k)).arrived.len() == 0 ==> refused(res, kcp::Error::RecvQueueEmpty),
        kcp_state(*old(k)).arrived.len() > 0 && !complete(kcp_state(*old(k)).arrived) ==> refused(res, kcp::Error::ExpectingFragment),
        complete(kcp_state(*old(k)).arrived) && message(kcp_state(*old(k)).arrived).len() > old(buf)@.len()
            ==> refused(res, kcp::Error::UserBufTooSmall),
        complete(kcp_state(*old(k)).arrived) && message(kcp_state(*old(k)).arrived).len() <= old(buf)@.len() ==> {
            let m = message(kcp_state(*old(k)).arrived);
            &&& res is Ok
            &&& res->Ok_0 == m.len()
            &&& final(buf)@ == m + old(buf)@.skip(m.len() as int)
            &&& kcp_state(*final(k)) == kcp_state(*old(k)).after_read()
        },
{
    k.recv(buf)
}

/// `Kcp::send`: puts a message, cut into fragments, behind those that wait. In stream mode the
/// last waiting fragment is filled up first. A message that would take 128 fragments or more is
/// refused, after that filling.
#[verifier::external_body]
pub(crate) fn kcp_send(k: &mut Kcp<KcpOutput>, buf: &[u8]) -> (res: KcpResult<usize>)
    requires
        0 < kcp_state(*old(k)).mss,
    ensures
        kcp_state(*old(k)).too_big(buf@.len()) ==> refused(res, kcp::Error::UserBufTooBig) && kcp_state(*final(k))
            == kcp_state(*old(k)).topped_up(buf@),
        !kcp_state(*old(k)).too_big(buf@.len()) ==> res is Ok && res->Ok_0 == buf@.len() && kcp_state(*final(k))
            == kcp_state(*old(k)).with_message(buf@),
{
    k.send(buf)
}

/// `Kcp::input`: takes the segments of a datagram, up to the first header that is refused. Data
/// within the receive window is held by its sequence number until it is next in order, and
/// segments that are acknowledged are no longer out. Sequence numbers and time stamps are compared by
/// differences that wrap.
#[verifier::external_body]
pub(crate) fn kcp_input(k: &mut Kcp<KcpOutput>, buf: &[u8]) -> (res: KcpResult<usize>)
    ensures
        res == verdict(kcp_state(*old(k)), buf@).result,
        kcp_state(*final(k)) == verdict(kcp_state(*old(k)), buf@).state,
{
    k.input(buf)
}

/// `Kcp::flush_ack`: puts the acknowledgements that are due into the datagram that is being filled,
/// and writes each that is full; nothing is done before the first update. The output takes every
/// datagram, so writing does not fail.
#[verifier::external_body]
pub(crate) fn kcp_flush_ack(k: &mut Kcp<KcpOutput>) -> (res: KcpResult<()>)
    ensures
        !kcp_state(*old(k)).updated ==> refused(res, kcp::Error::NeedUpdate) && kcp_state(
            *final(k),
        ) == kcp_state(*old(k)),
        kcp_state(*old(k)).updated ==> res is Ok && kcp_state(*final(k)) == (KcpState {
            acks: Seq::empty(),
            ..kcp_state(*old(k))
        }),
{
    k.flush_ack()
}

/// `Kcp::flush`: writes what is due, and moves waiting fragments into the send window; nothing is
/// written before the first update. How many fragments move is in the name of the state it leaves.
/// The output takes every datagram, so writing does not fail. Sequence numbers and the times of the
/// next attempts are sums that wrap.
#[verifier::external_body]
pub(crate) fn kcp_flush(k: &mut Kcp<KcpOutput>) -> (res: KcpResult<()>)
    ensures
        !kcp_state(*old(k)).updated ==> refused(res, kcp::Error::NeedUpdate) && kcp_state(
            *final(k),
        ) == kcp_state(*old(k)),
        kcp_state(*old(k)).updated ==> res is Ok && kcp_state(*final(k)) == kcp_flushed(*old(k)) && flushed(
            kcp_state(*old(k)),
            kcp_state(*final(k)),
        ),
{
    k.flush()
}

/// `Kcp::update`: sets the machine's clock and flushes it when a flush is due, as it is the first
/// time. A flush never fails on an updated machine. The time of the next flush is a sum that wraps,
/// and clock readings are compared by differences that wrap.
#[verifier::external_body]
pub(crate) fn kcp_update(k: &mut Kcp<KcpOutput>, current: u32) -> (res: KcpResult<()>)
    ensures
        res is Ok,
        kcp_state(*final(k)) == kcp_updated(*old(k), current),
        updated(kcp_state(*old(k)), kcp_state(*final(k)), current),
{
    k.update(current)
}

/// `Kcp::check`: how long the machine can be left alone, by the clock reading `current`: not at
/// all before the first update, and never longer than the flush interval. Clock readings are
/// compared by differences that wrap.
#[verifier::external_body]
pub(crate) fn kcp_next_update(k: &Kcp<KcpOutput>, current: u32) -> (res: u32)
    ensures
        res == kcp_check(*k, current),
        !kcp_state(*k).updated ==> res == 0,
        res <= kcp_state(*k).interval,
{
    k.check(current)
}

/// `kcp::get_conv`: the conversation number in the first segment header of a datagram.
#[verifier::external_body]
pub(crate) fn kcp_get_conv(buf: &[u8]) -> (res: u32)
    requires
        buf@.len() >= KCP_OVERHEAD,
    ensures
        res == le32(buf@, 0),
{
    kcp::get_conv(buf)
}

} // verus!
