use std::sync::Arc;
use std::time::Duration;

use tokio_kcp::{
    KcpConfig, KcpError, KcpOutputHandle, KcpSession, KcpSessionManager, PeerAddr, QueueAction, SendAttempt,
    SessionAction, SessionEvent, SharedKcp,
};

const SECOND: u64 = 1_000_000_000;

fn peer() -> PeerAddr {
    PeerAddr { ip: 0x7f00_0001, is_v6: false, port: 3100, flowinfo: 0, scope_id: 0 }
}

fn push(conv: u32, sn: u32, data: &[u8]) -> Vec<u8> {
    let mut b = Vec::new();
    b.extend_from_slice(&conv.to_le_bytes());
    b.push(81);
    b.push(0);
    b.extend_from_slice(&128u16.to_le_bytes());
    b.extend_from_slice(&0u32.to_le_bytes());
    b.extend_from_slice(&sn.to_le_bytes());
    b.extend_from_slice(&0u32.to_le_bytes());
    b.extend_from_slice(&(data.len() as u32).to_le_bytes());
    b.extend_from_slice(data);
    b
}

fn drained(queue: &KcpOutputHandle) -> Vec<Vec<u8>> {
    let mut out = Vec::new();
    let mut last = None;
    loop {
        match queue.poll(last) {
            QueueAction::Send(_, pkt) => {
                last = Some(SendAttempt::Sent(pkt.len()));
                out.push(pkt.to_vec());
            }
            _ => return out,
        }
    }
}

fn session(expire: Option<Duration>, is_client: bool) -> KcpSession {
    let mut config = KcpConfig::default();
    config.nodelay.nc = true;
    KcpSession::new(SharedKcp::new(&config, 3, peer(), false, 0), expire, is_client)
}

fn tick(s: &mut KcpSession, now: u64) -> SessionAction {
    let millis = (now / 1_000_000) as u32;
    s.step(SessionEvent::Tick { current: millis, later: millis }, now)
}

#[test]
fn a_session_that_lives_is_updated() {
    let mut s = session(Some(Duration::from_secs(90)), false);
    assert!(!s.is_client());
    assert!(matches!(tick(&mut s, 0), SessionAction::Sleep(40)));
    assert!(matches!(tick(&mut s, SECOND / 100), SessionAction::Sleep(30)));
    assert!(matches!(s.step(SessionEvent::RecvFailed, 1), SessionAction::Continue));
    assert!(matches!(s.step(SessionEvent::ListenerGone, 1), SessionAction::Continue));
}

#[test]
fn a_datagram_wakes_the_receiver() {
    let mut s = session(None, true);
    let d = push(3, 0, b"x");
    let woken = s.step(SessionEvent::Received(&d), 1);
    assert!(matches!(woken, SessionAction::Wake { sender: false, receiver: true }));
    let d = push(3, 2, b"z");
    let mut buf = [0u8; 4];
    s.kcp_socket().recv(&mut buf, 2).unwrap();
    let woken = s.step(SessionEvent::Forwarded(&d), 3);
    assert!(matches!(woken, SessionAction::Wake { sender: false, receiver: false }));
    let refused = s.step(SessionEvent::Forwarded(&d[..9]), 3);
    assert!(matches!(refused, SessionAction::Report(KcpError::InvalidSegmentSize(9))));
    assert!(matches!(s.input(&push(4, 0, b"x"), 3), SessionAction::Wake { sender: false, receiver: false }));
}

#[test]
fn an_acknowledgement_wakes_the_sender() {
    let mut config = KcpConfig::default();
    config.wnd_size = (1, 128);
    config.nodelay.nc = true;
    let mut a = KcpSession::new(SharedKcp::new(&config, 3, peer(), false, 0), None, true);
    let mut b = KcpSession::new(SharedKcp::new(&config, 3, peer(), false, 0), None, false);
    a.kcp_socket().send(b"one", 1).unwrap();
    assert!(a.kcp_socket().send(b"two", 1).is_err());
    tick(&mut a, 2);
    tick(&mut b, 2);
    let queue = a.kcp_socket().output_queue();
    for d in drained(&queue) {
        b.step(SessionEvent::Forwarded(&d), 3);
    }
    b.kcp_socket().flush(4).unwrap();
    let queue = b.kcp_socket().output_queue();
    let back = drained(&queue);
    assert_eq!(back.len(), 1);
    let woken = a.step(SessionEvent::Received(&back[0]), 5);
    assert!(matches!(woken, SessionAction::Wake { sender: true, receiver: false }));
}

#[test]
fn a_closed_session_ends_when_all_is_sent() {
    let mut s = session(None, true);
    tick(&mut s, 0);
    s.kcp_socket().send(b"x", 1).unwrap();
    s.close();
    assert!(matches!(tick(&mut s, 100), SessionAction::Sleep(_)));
    assert!(!s.kcp_socket().is_expired());

    let mut s = session(None, true);
    s.close();
    assert!(matches!(tick(&mut s, 0), SessionAction::Finish { notify: None }));
    assert!(s.kcp_socket().is_expired());
}

#[test]
fn a_server_session_tells_its_number_when_it_ends() {
    let mut s = session(None, false);
    s.close();
    assert!(matches!(tick(&mut s, 0), SessionAction::Finish { notify: Some(3) }));
    let mut buf = [0u8; 4];
    assert_eq!(s.kcp_socket().recv(&mut buf, 1).unwrap(), 0);
    assert!(matches!(s.kcp_socket().send(b"x", 1), Err(KcpError::SessionExpired)));
}

#[test]
fn an_idle_server_session_is_closed_after_its_expiry() {
    let mut s = session(Some(Duration::from_secs(90)), false);
    assert!(matches!(tick(&mut s, 90 * SECOND), SessionAction::Sleep(_)));
    assert!(matches!(tick(&mut s, 90 * SECOND), SessionAction::Sleep(_)));
    assert!(matches!(tick(&mut s, 90 * SECOND + 1), SessionAction::Sleep(_)));
    assert!(matches!(tick(&mut s, 90 * SECOND + 2), SessionAction::Finish { notify: Some(3) }));
}

#[test]
fn an_idle_server_session_is_ended_after_twice_its_expiry() {
    let mut s = session(Some(Duration::from_secs(90)), false);
    s.kcp_socket().send(b"never acknowledged", 0).unwrap();
    assert!(matches!(tick(&mut s, 90 * SECOND + 1), SessionAction::Sleep(_)));
    assert!(matches!(tick(&mut s, 180 * SECOND), SessionAction::Sleep(_)));
    assert!(matches!(tick(&mut s, 180 * SECOND + 1), SessionAction::Finish { notify: Some(3) }));
}

#[test]
fn clients_and_sessions_without_expiry_do_not_expire() {
    let mut s = session(Some(Duration::from_secs(1)), true);
    assert!(s.is_client());
    assert!(matches!(tick(&mut s, 1000 * SECOND), SessionAction::Sleep(_)));
    assert!(matches!(tick(&mut s, 1000 * SECOND), SessionAction::Sleep(_)));
    let mut s = session(None, false);
    assert!(matches!(tick(&mut s, 1000 * SECOND), SessionAction::Sleep(_)));
    assert!(matches!(tick(&mut s, 1000 * SECOND), SessionAction::Sleep(_)));
}

#[test]
fn conversation_numbers_are_given_out_in_turn() {
    let config = KcpConfig::default();
    let mut m: KcpSessionManager<u8> = KcpSessionManager::new();
    assert!(m.has_free_conv());
    assert_eq!(m.alloc_conv(), 1);
    assert_eq!(m.alloc_conv(), 2);
    m.get_or_create(&config, 3, peer(), 0, |_| Arc::new(0));
    m.get_or_create(&config, 4, peer(), 0, |_| Arc::new(0));
    assert_eq!(m.alloc_conv(), 5);
    assert_eq!(m.try_alloc_conv(), Some(6));
    m.close_conv(3);
    assert_eq!(m.alloc_conv(), 7);
}

#[test]
fn a_conversation_has_one_session() {
    let config = KcpConfig::default();
    let mut m: KcpSessionManager<KcpSession> = KcpSessionManager::new();
    let (first, new) = m.get_or_create(&config, 3, peer(), 0, |s| Arc::new(s));
    assert!(new);
    let (second, new) = m.get_or_create(&config, 3, peer(), 9, |_| panic!("made twice"));
    assert!(!new);
    assert!(Arc::ptr_eq(&first, &second));
    let (other, new) = m.get_or_create(&config, 4, peer(), 0, |s| Arc::new(s));
    assert!(new);
    assert!(!Arc::ptr_eq(&first, &other));
    m.close_conv(3);
    let (third, new) = m.get_or_create(&config, 3, peer(), 0, |s| Arc::new(s));
    assert!(new);
    assert!(!Arc::ptr_eq(&first, &third));
    let (kept, new) = m.get_or_create(&config, 4, peer(), 0, |s| Arc::new(s));
    assert!(!new);
    assert!(Arc::ptr_eq(&other, &kept));
}

#[test]
fn a_new_server_session_is_handed_over() {
    let config = KcpConfig::default();
    let mut m: KcpSessionManager<(u32, bool)> = KcpSessionManager::new();
    let (made, _) = m.get_or_create(&config, 8, peer(), 0, |mut s| {
        let conv = s.kcp_socket().conv();
        Arc::new((conv, s.is_client()))
    });
    assert_eq!(*made, (8, false));
}

#[test]
fn settings_do_not_matter_to_a_session_that_lives() {
    let mut config = KcpConfig::default();
    let mut m: KcpSessionManager<u8> = KcpSessionManager::new();
    let (first, _) = m.get_or_create(&config, 3, peer(), 0, |_| Arc::new(7));
    config.mtu = 0;
    assert!(m.has_conv(3));
    assert!(!m.has_conv(4));
    let (again, new) = m.get_or_create(&config, 3, peer(), 0, |_| panic!("made twice"));
    assert!(!new);
    assert!(Arc::ptr_eq(&first, &again));
}
