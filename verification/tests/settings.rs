use std::time::{Duration, SystemTime};

use kcp::Kcp;
use tokio_kcp::utils::{millis_since_epoch, now_millis};
use tokio_kcp::{KcpConfig, KcpNoDelayConfig, KcpOutput, PeerAddr};

fn peer() -> PeerAddr {
    PeerAddr { ip: 0x7f00_0001, is_v6: false, port: 3100, flowinfo: 0, scope_id: 0 }
}

fn shown(k: &Kcp<KcpOutput>) -> String {
    format!("{:?}", k)
}

#[test]
fn timing_presets() {
    let d = KcpNoDelayConfig::default();
    assert_eq!((d.nodelay, d.interval, d.resend, d.nc), (false, 100, 0, false));
    let f = KcpNoDelayConfig::fastest();
    assert_eq!((f.nodelay, f.interval, f.resend, f.nc), (true, 10, 2, true));
    let n = KcpNoDelayConfig::normal();
    assert_eq!((n.nodelay, n.interval, n.resend, n.nc), (false, 40, 0, false));
}

#[test]
fn default_settings() {
    let c = KcpConfig::default();
    assert_eq!(c.mtu, 1400);
    assert_eq!(c.nodelay.interval, 40);
    assert_eq!(c.wnd_size, (256, 256));
    assert_eq!(c.session_expire, Some(Duration::from_secs(90)));
    assert!(!c.flush_write);
    assert!(!c.flush_acks_input);
    assert!(!c.stream);
    assert!(!c.allow_recv_empty_packet);
    assert!(c.is_valid());
}

#[test]
fn settings_with_a_bad_mtu_are_not_valid() {
    let mut c = KcpConfig::default();
    c.mtu = 49;
    assert!(!c.is_valid());
    c.mtu = 50;
    assert!(c.is_valid());
    c.mtu = isize::MAX as usize / 3 - 24;
    assert!(c.is_valid());
    c.mtu += 1;
    assert!(!c.is_valid());
    c.mtu = usize::MAX;
    assert!(!c.is_valid());
}

#[test]
fn settings_reach_the_machine() {
    let mut c = KcpConfig::default();
    c.mtu = 500;
    c.nodelay = KcpNoDelayConfig::fastest();
    c.wnd_size = (64, 200);
    let mut k = Kcp::new(9, KcpOutput::new(peer()));
    c.apply_config(&mut k);
    let text = shown(&k);
    assert!(text.contains("conv: 9,"));
    assert!(text.contains("mtu: 500,"));
    assert!(text.contains("mss: 476,"));
    assert!(text.contains("snd_wnd: 64,"));
    assert!(text.contains("rcv_wnd: 200,"));
    assert!(text.contains("nodelay: true,"));
    assert!(text.contains("rx_minrto: 30,"));
    assert!(text.contains(" interval: 10,"));
    assert!(text.contains("fastresend: 2,"));
    assert!(text.contains("nocwnd: true,"));
    assert!(text.contains("stream: false,"));
    assert!(text.contains("input_conv: false"));
}

#[test]
fn settings_out_of_range_are_clamped() {
    let mut c = KcpConfig::default();
    c.nodelay = KcpNoDelayConfig { nodelay: false, interval: 3, resend: -1, nc: false };
    c.wnd_size = (0, 16);
    let mut k = Kcp::new_stream(9, KcpOutput::new(peer()));
    c.apply_config(&mut k);
    let text = shown(&k);
    assert!(text.contains(" interval: 10,"));
    assert!(text.contains("fastresend: 0,"));
    assert!(text.contains("rx_minrto: 100,"));
    assert!(text.contains("snd_wnd: 32,"));
    assert!(text.contains("rcv_wnd: 128,"));
    assert!(text.contains("stream: true,"));
    c.nodelay.interval = 6000;
    c.wnd_size = (0, 0);
    c.apply_config(&mut k);
    let text = shown(&k);
    assert!(text.contains(" interval: 5000,"));
    assert!(text.contains("rcv_wnd: 128,"));
}

#[test]
fn settings_applied_twice_change_nothing() {
    let c = KcpConfig::default();
    let mut k = Kcp::new(5, KcpOutput::new(peer()));
    c.apply_config(&mut k);
    let once = shown(&k);
    c.apply_config(&mut k);
    assert_eq!(shown(&k), once);
}

#[test]
fn milliseconds_wrap_in_32_bits() {
    let epoch = SystemTime::UNIX_EPOCH;
    assert_eq!(millis_since_epoch(epoch), Some(0));
    assert_eq!(millis_since_epoch(epoch + Duration::from_micros(1999)), Some(1));
    assert_eq!(millis_since_epoch(epoch + Duration::from_millis(0xffff_ffff)), Some(0xffff_ffff));
    assert_eq!(millis_since_epoch(epoch + Duration::from_millis(0x1_0000_0002)), Some(2));
    assert_eq!(millis_since_epoch(epoch - Duration::from_secs(1)), None);
}

#[test]
fn the_clock_runs() {
    let since = SystemTime::now().duration_since(SystemTime::UNIX_EPOCH).unwrap();
    let before = since.as_millis() as u32;
    let now = now_millis().unwrap();
    assert!(now.wrapping_sub(before) < 10_000);
}

#[test]
fn a_socket_is_bound_in_the_family_of_its_peer() {
    let v4 = peer().any_local();
    assert_eq!(v4, PeerAddr { ip: 0, is_v6: false, port: 0, flowinfo: 0, scope_id: 0 });
    let far = PeerAddr { ip: 1, is_v6: true, port: 53, flowinfo: 2, scope_id: 3 };
    assert_eq!(far.any_local(), PeerAddr { ip: 0, is_v6: true, port: 0, flowinfo: 0, scope_id: 0 });
}

#[test]
fn settings_keep_the_conversation() {
    let mut k = Kcp::new(5, KcpOutput::new(peer()));
    k.input_conv();
    k.send(b"waiting").unwrap();
    let mut c = KcpConfig::default();
    c.mtu = 100;
    c.apply_config(&mut k);
    assert_eq!(k.conv(), 5);
    assert!(k.waiting_conv());
    assert_eq!(k.wait_snd(), 1);
    assert_eq!(k.mss(), 76);
}
