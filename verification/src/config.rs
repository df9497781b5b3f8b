//! Session settings.

use std::time::Duration;

use kcp::Kcp;
use vstd::prelude::*;

use crate::engine::{
    clamp_interval, kcp_set_mtu, kcp_set_nodelay, kcp_set_wndsize, kcp_state, KcpState, KCP_OVERHEAD, MIN_MTU,
};
use crate::output::KcpOutput;
use crate::utils::duration_nanos;

verus! {

/// Timing settings.
#[derive(Debug, Clone, Copy)]
pub struct KcpNoDelayConfig {
    /// Enable nodelay
    pub nodelay: bool,
    /// Internal update interval (ms)
    pub interval: i32,
    /// ACK number to enable fast resend
    pub resend: i32,
    /// Disable congestion control
    pub nc: bool,
}

impl Default for KcpNoDelayConfig {
    fn default() -> (res: KcpNoDelayConfig)
        ensures
            res == (KcpNoDelayConfig { nodelay: false, interval: 100, resend: 0, nc: false }),
    {
        KcpNoDelayConfig { nodelay: false, interval: 100, resend: 0, nc: false }
    }
}

impl KcpNoDelayConfig {
    /// The fastest configuration
    ///
    /// 1. Enable NoDelay
    /// 2. Set ticking interval to be 10ms
    /// 3. Set fast resend to be 2
    /// 4. Disable congestion control
    pub fn fastest() -> (res: KcpNoDelayConfig)
        ensures
            res == (KcpNoDelayConfig { nodelay: true, interval: 10, resend: 2, nc: true }),
    {
        KcpNoDelayConfig { nodelay: true, interval: 10, resend: 2, nc: true }
    }

    /// A normal configuration
    ///
    /// 1. Disable NoDelay
    /// 2. Set ticking interval to be 40ms
    /// 3. Disable fast resend
    /// 4. Enable congestion control
    pub fn normal() -> (res: KcpNoDelayConfig)
        ensures
            res == (KcpNoDelayConfig { nodelay: false, interval: 40, resend: 0, nc: false }),
    {
        KcpNoDelayConfig { nodelay: false, interval: 40, resend: 0, nc: false }
    }
}

/// Session settings.
#[derive(Debug, Clone, Copy)]
pub struct KcpConfig {
    /// Max Transmission Unit
    pub mtu: usize,
    /// nodelay
    pub nodelay: KcpNoDelayConfig,
    /// Send window size and receive window size
    pub wnd_size: (u16, u16),
    /// Session expire duration, default is 90 seconds
    pub session_expire: Option<Duration>,
    /// Flush KCP state immediately after write
    pub flush_write: bool,
    /// Flush ACKs immediately after input
    pub flush_acks_input: bool,
    /// Stream mode
    pub stream: bool,
    /// Allow recv 0 byte packet. KCP Segments with 0 byte data are skipped by default.
    pub allow_recv_empty_packet: bool,
}

impl Default for KcpConfig {
    fn default() -> (res: KcpConfig)
        ensures
            res.mtu == 1400,
            res.nodelay == (KcpNoDelayConfig { nodelay: false, interval: 40, resend: 0, nc: false }),
            res.wnd_size == (256u16, 256u16),
            res.session_expire is Some,
            duration_nanos(res.session_expire->Some_0) == 90 * 1_000_000_000,
            !res.flush_write,
            !res.flush_acks_input,
            !res.stream,
            !res.allow_recv_empty_packet,
    {
        KcpConfig {
            mtu: 1400,
            nodelay: KcpNoDelayConfig::normal(),
            wnd_size: (256, 256),
            session_expire: Some(Duration::from_secs(90)),
            flush_write: false,
            flush_acks_input: false,
            stream: false,
            allow_recv_empty_packet: false,
        }
    }
}

impl KcpConfig {
    /// Whether a machine can take these settings: its MTU holds a segment, and three datagrams
    /// can be allocated.
    pub open spec fn valid(self) -> bool {
        &&& MIN_MTU <= self.mtu
        &&& (self.mtu + KCP_OVERHEAD) * 3 <= isize::MAX
    }

    /// The state of a machine in state `s` that has taken these settings.
    pub open spec fn applied(self, s: KcpState) -> KcpState {
        KcpState {
            mtu: self.mtu,
            mss: (self.mtu - KCP_OVERHEAD) as usize,
            nodelay: self.nodelay.nodelay,
            min_rto: if self.nodelay.nodelay { 30 } else { 100 },
            interval: clamp_interval(self.nodelay.interval),
            fast_resend: if self.nodelay.resend >= 0 { self.nodelay.resend as u32 } else { s.fast_resend },
            no_cwnd: self.nodelay.nc,
            snd_wnd: if self.wnd_size.0 > 0 { self.wnd_size.0 } else { s.snd_wnd },
            rcv_wnd: if self.wnd_size.1 == 0 {
                s.rcv_wnd
            } else if self.wnd_size.1 < 128 {
                128
            } else {
                self.wnd_size.1
            },
            ..s
        }
    }

    /// Whether a machine can take these settings.
    pub fn is_valid(&self) -> (res: bool)
        ensures
            res == self.valid(),
    {
        MIN_MTU <= self.mtu && self.mtu <= isize::MAX as usize / 3 - KCP_OVERHEAD
    }

    /// Applies config onto `Kcp`
    pub fn apply_config(&self, k: &mut Kcp<KcpOutput>)
        requires
            self.valid(),
        ensures
            kcp_state(*final(k)) == self.applied(kcp_state(*old(k))),
    {
        let _ = kcp_set_mtu(k, self.mtu);
        kcp_set_nodelay(k, self.nodelay.nodelay, self.nodelay.interval, self.nodelay.resend, self.nodelay.nc);
        kcp_set_wndsize(k, self.wnd_size.0, self.wnd_size.1);
    }
}

/// Settings that a machine has taken change nothing when it takes them again.
pub proof fn applying_twice_is_applying_once(c: KcpConfig, s: KcpState)
    ensures
        c.applied(c.applied(s)) == c.applied(s),
{
}

/// Settings touch neither what a machine has queued nor what it has received, nor the
/// conversation it is in.
pub proof fn applying_keeps_the_conversation(c: KcpConfig, s: KcpState)
    ensures
        c.applied(s).conv == s.conv,
        c.applied(s).waiting_conv == s.waiting_conv,
        c.applied(s).queued == s.queued,
        c.applied(s).in_flight == s.in_flight,
        c.applied(s).arrived == s.arrived,
        c.applied(s).early == s.early,
        c.applied(s).acks == s.acks,
        c.applied(s).snd_nxt == s.snd_nxt,
        c.applied(s).rcv_nxt == s.rcv_nxt,
        c.applied(s).output == s.output,
{
}

} // verus!
