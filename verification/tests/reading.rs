use tokio_kcp::kcp_io::next_power_of_two;
use tokio_kcp::{
    Accepted, ClientKcpIo, KcpConfig, KcpError, KcpIo, KcpListener, KcpOutputHandle, KcpStream, PeerAddr, Polled,
    QueueAction, SendAttempt, ServerKcpIo, SharedKcp, Turn,
};

fn addr(port: u16) -> PeerAddr {
    PeerAddr { ip: 0x7f00_0001, is_v6: false, port, flowinfo: 0, scope_id: 0 }
}

fn data(conv: u32, frg: u8, sn: u32, data: &[u8]) -> Vec<u8> {
    let mut b = Vec::new();
    b.extend_from_slice(&conv.to_le_bytes());
    b.push(81);
    b.push(frg);
    b.extend_from_slice(&128u16.to_le_bytes());
    b.extend_from_slice(&0u32.to_le_bytes());
    b.extend_from_slice(&sn.to_le_bytes());
    b.extend_from_slice(&0u32.to_le_bytes());
    b.extend_from_slice(&(data.len() as u32).to_le_bytes());
    b.extend_from_slice(data);
    b
}

fn io() -> KcpIo {
    KcpIo::new(SharedKcp::new(&KcpConfig::default(), 3, addr(1), false, 0))
}

#[test]
fn powers_of_two() {
    assert_eq!(next_power_of_two(0), 1);
    assert_eq!(next_power_of_two(1), 1);
    assert_eq!(next_power_of_two(3), 4);
    assert_eq!(next_power_of_two(1400), 2048);
    assert_eq!(next_power_of_two(4096), 4096);
    assert_eq!(next_power_of_two(usize::MAX / 2 + 1), usize::MAX / 2 + 1);
    assert_eq!(next_power_of_two(usize::MAX / 2 + 2), usize::MAX / 2 + 2);
}

#[test]
fn a_message_is_read_in_parts() {
    let mut io = io();
    assert_eq!(io.mtu(), 1400);
    assert!(!io.can_read());
    io.input(&data(3, 0, 0, b"hello"), 1).unwrap();
    io.input(&data(3, 0, 1, b"world!"), 1).unwrap();
    assert!(io.can_read());
    let mut buf = [0u8; 3];
    assert_eq!(io.read(&mut buf, 2).unwrap(), 3);
    assert_eq!(&buf, b"hel");
    assert_eq!(io.buf_remaining(), 2);
    assert_eq!(io.read(&mut buf, 2).unwrap(), 2);
    assert_eq!(&buf, b"lol");
    let mut buf = [0u8; 16];
    assert_eq!(io.read(&mut buf, 2).unwrap(), 6);
    assert_eq!(&buf[..6], b"world!");
    assert_eq!(io.buf_remaining(), 0);
    assert!(matches!(io.read(&mut buf, 2), Err(KcpError::RecvQueueEmpty)));
}

#[test]
fn the_buffer_is_filled_and_consumed() {
    let mut io = io();
    io.input(&data(3, 0, 0, b"hello"), 1).unwrap();
    assert_eq!(io.fill_buf(2).unwrap(), b"hello");
    assert_eq!(io.fill_buf(2).unwrap(), b"hello");
    io.consume(2);
    assert_eq!(io.fill_buf(2).unwrap(), b"llo");
    io.consume(100);
    assert_eq!(io.buf_remaining(), 0);
    assert!(matches!(io.fill_buf(2), Err(KcpError::RecvQueueEmpty)));
}

#[test]
fn the_buffer_grows_with_the_message() {
    let mut io = io();
    let part = vec![7u8; 1300];
    io.input(&data(3, 1, 0, &part), 1).unwrap();
    assert!(matches!(io.fill_buf(1), Err(KcpError::ExpectingFragment)));
    io.input(&data(3, 0, 1, &part), 1).unwrap();
    assert_eq!(io.fill_buf(2).unwrap().len(), 2600);
    io.consume(2600);
    io.input(&data(3, 1, 2, &part), 1).unwrap();
    io.input(&data(3, 0, 3, &part), 1).unwrap();
    let mut small = [0u8; 100];
    assert_eq!(io.read(&mut small, 3).unwrap(), 100);
    assert_eq!(io.buf_remaining(), 2500);
}

#[test]
fn what_is_written_is_sent() {
    let mut io = io();
    assert!(io.accepts(5000));
    assert_eq!(io.write(b"abc", 1).unwrap(), 3);
    assert!(matches!(io.flush(1), Err(KcpError::NeedUpdate)));
    io.socket().update_at(0, 0).unwrap();
    io.flush(2).unwrap();
    io.shutdown();
    assert!(io.socket().is_closed());
}

#[test]
fn a_client_is_updated_when_it_is_made() {
    let mut config = KcpConfig::default();
    config.nodelay.nc = true;
    let mut c = ClientKcpIo::new(SharedKcp::new(&config, 3, addr(1), false, 0), 1000).unwrap();
    assert_eq!(c.mtu(), 1400);
    assert_eq!(c.write(b"abc", 1).unwrap(), 3);
    c.flush(2).unwrap();
    let queue = c.io().socket().output_queue();
    assert!(matches!(queue.poll(None), QueueAction::Send(_, ref pkt) if pkt.ends_with(b"abc")));
    c.input(&data(3, 0, 0, b"reply"), 3).unwrap();
    let mut buf = [0u8; 8];
    assert_eq!(c.read(&mut buf, 4).unwrap(), 5);
    assert_eq!(&buf[..5], b"reply");
}

#[test]
fn a_server_says_when_there_is_something_to_read() {
    let mut s = ServerKcpIo::new(SharedKcp::new(&KcpConfig::default(), 3, addr(1), false, 0));
    assert!(!s.input(&data(3, 0, 1, b"late"), 1).unwrap());
    assert!(s.input(&data(3, 0, 0, b"early"), 1).unwrap());
    assert!(matches!(s.input(&[0; 3], 1), Err(KcpError::InvalidSegmentSize(3))));
    let mut buf = [0u8; 8];
    assert_eq!(s.read(&mut buf, 2).unwrap(), 5);
    assert_eq!(s.write(b"x", 2).unwrap(), 1);
    assert!(matches!(s.flush(2), Err(KcpError::NeedUpdate)));
    s.shutdown();
    assert!(s.io().socket().is_closed());
}

#[test]
fn a_listener_keeps_a_session_for_each_peer() {
    let queue = KcpOutputHandle::new();
    let mut l = KcpListener::new(KcpConfig::default(), queue);
    assert_eq!(l.recv_len(), 1400);
    let mut buf = vec![0u8; 1400];
    let d = data(11, 0, 0, b"one");
    buf[..d.len()].copy_from_slice(&d);
    assert_eq!(l.accept(&buf, d.len(), addr(1), 1).unwrap(), Accepted::New { readable: true });
    let d = data(22, 0, 1, b"later");
    buf[..d.len()].copy_from_slice(&d);
    assert_eq!(l.accept(&buf, d.len(), addr(2), 1).unwrap(), Accepted::New { readable: false });
    let d = data(11, 0, 1, b"two");
    buf[..d.len()].copy_from_slice(&d);
    assert_eq!(l.accept(&buf, d.len(), addr(1), 2).unwrap(), Accepted::Delivered { readable: true });
    assert_eq!(l.len(), 2);
    assert_eq!(l.find(addr(1)), Some(0));
    assert_eq!(l.find(addr(2)), Some(1));
    assert_eq!(l.find(addr(3)), None);
    let mut out = [0u8; 8];
    assert_eq!(l.session(0).read(&mut out, 3).unwrap(), 3);
    assert_eq!(&out[..3], b"one");
    assert_eq!(l.session(0).read(&mut out, 3).unwrap(), 3);
    assert_eq!(&out[..3], b"two");
    assert_eq!(l.session(0).io().socket().conv(), 11);
    assert_eq!(l.session(1).io().socket().conv(), 22);
    assert!(l.remove(addr(1)));
    assert!(!l.remove(addr(1)));
    assert_eq!(l.find(addr(2)), Some(0));
}

#[test]
fn a_listener_reports_what_a_session_refuses() {
    let mut l = KcpListener::new(KcpConfig::default(), KcpOutputHandle::new());
    let buf = vec![0u8; 1400];
    assert!(matches!(l.accept(&buf, 7, addr(1), 1), Err(KcpError::InvalidSegmentSize(7))));
    assert_eq!(l.len(), 1);
    assert!(matches!(l.accept(&buf, 24, addr(1), 1), Err(KcpError::UnsupportedCmd(0))));
    assert_eq!(l.len(), 1);
}

#[test]
fn a_stream_reads_messages_and_what_is_left_of_them() {
    let config = KcpConfig::default();
    let (mut stream, mut session) = KcpStream::connect_with_conv(&config, 3, addr(1), 0);
    assert!(session.is_client());
    let mut buf = [0u8; 4];
    assert!(matches!(stream.poll_recv(&mut session, &mut buf, 1), (Polled::Pending, false)));
    session.input(&data(3, 0, 0, b"hello!"), 1);
    assert!(matches!(stream.poll_recv(&mut session, &mut buf, 2), (Polled::Ready(Ok(4)), true)));
    assert_eq!(&buf, b"hell");
    let mut wide = [7u8; 8];
    assert!(matches!(stream.poll_recv(&mut session, &mut wide[..1], 2), (Polled::Ready(Ok(1)), false)));
    assert!(matches!(stream.poll_recv(&mut session, &mut wide[1..], 2), (Polled::Ready(Ok(1)), false)));
    assert_eq!(&wide, b"o!\x07\x07\x07\x07\x07\x07");
    session.input(&data(3, 0, 1, b"abc"), 3);
    assert!(matches!(stream.poll_recv(&mut session, &mut buf, 4), (Polled::Ready(Ok(3)), true)));
    assert_eq!(&buf[..3], b"abc");
}

#[test]
fn a_stream_sends_and_flushes() {
    let config = KcpConfig::default();
    let (mut stream, mut session) = KcpStream::connect_with_conv(&config, 0, addr(1), 0);
    assert!(matches!(stream.poll_send(&mut session, b"hi", 1), (Polled::Ready(Ok(2)), true)));
    assert!(matches!(stream.poll_send(&mut session, b"more", 1), (Polled::Pending, false)));
    assert!(matches!(stream.poll_flush(&mut session, 1), (Err(KcpError::NeedUpdate), false)));
    session.kcp_socket().update_at(0, 0).unwrap();
    assert!(matches!(stream.poll_flush(&mut session, 1), (Ok(()), true)));
    session.kcp_socket().set_expired().1.unwrap();
    assert!(matches!(
        stream.poll_send(&mut session, b"x", 2),
        (Polled::Ready(Err(KcpError::SessionExpired)), true)
    ));
    let mut buf = [0u8; 4];
    assert!(matches!(stream.poll_recv(&mut session, &mut buf, 2), (Polled::Ready(Ok(0)), true)));
}

#[test]
fn a_stream_is_connected_under_a_random_number() {
    let config = KcpConfig::default();
    let mut seen = Vec::new();
    for _ in 0..8 {
        let (_, mut session) = KcpStream::connect(&config, addr(1), 0);
        seen.push(session.kcp_socket().conv());
    }
    assert!(seen.iter().any(|conv| *conv != seen[0]));
}

#[test]
fn a_message_too_long_for_a_stream() {
    let config = KcpConfig::default();
    let (mut stream, mut session) = KcpStream::connect_with_conv(&config, 3, addr(1), 0);
    let long = vec![0u8; 1376 * 128];
    let (answer, _) = stream.poll_send(&mut session, &long, 1);
    assert!(matches!(answer, Polled::Ready(Err(KcpError::UserBufTooBig))));
}

#[test]
fn sessions_of_a_listener_share_its_queue() {
    let queue = KcpOutputHandle::new();
    let mut config = KcpConfig::default();
    config.nodelay.nc = true;
    let mut l = KcpListener::new(config, queue.clone());
    let d = data(11, 0, 0, b"one");
    l.accept(&d, d.len(), addr(1), 1).unwrap();
    let d = data(22, 0, 0, b"one");
    l.accept(&d, d.len(), addr(2), 1).unwrap();
    for i in 0..2 {
        l.session(i).io().socket().update_at(0, 0).unwrap();
    }
    let mut to = Vec::new();
    let mut last = None;
    while let QueueAction::Send(peer, pkt) = queue.poll(last) {
        to.push(peer);
        last = Some(SendAttempt::Sent(pkt.len()));
    }
    assert_eq!(to, vec![addr(1), addr(2)]);
}

const SECOND: u64 = 1_000_000_000;

fn listening() -> KcpListener {
    let mut l = KcpListener::new(KcpConfig::default(), KcpOutputHandle::new());
    let d = data(11, 0, 0, b"one");
    l.accept(&d, d.len(), addr(1), 0).unwrap();
    let d = data(22, 0, 0, b"two");
    l.accept(&d, d.len(), addr(2), 0).unwrap();
    l
}

#[test]
fn an_empty_message_before_a_full_one_is_told() {
    let mut s = ServerKcpIo::new(SharedKcp::new(&KcpConfig::default(), 3, addr(1), false, 0));
    assert!(!s.input(&data(3, 0, 0, b""), 1).unwrap());
    assert!(s.input(&data(3, 0, 2, b"early"), 1).is_ok());
    assert!(s.input(&data(3, 0, 1, b"full"), 1).unwrap());
    let mut buf = [0u8; 8];
    assert_eq!(s.read(&mut buf, 2).unwrap(), 4);
}

#[test]
fn a_silent_session_of_a_listener_is_closed_and_ends() {
    let mut l = listening();
    assert!(matches!(l.tick(0, 90 * SECOND, 0, 0), Turn::Sleep(40)));
    assert!(!l.session(0).io().socket().is_closed());
    assert!(matches!(l.tick(0, 90 * SECOND + 1, 0, 0), Turn::Sleep(40)));
    assert!(l.session(0).io().socket().is_closed());
    match l.tick(0, 90 * SECOND + 2, 0, 0) {
        Turn::Ended { peer, mut io, sender } => {
            assert_eq!(peer, addr(1));
            assert!(!sender);
            assert!(io.io().socket().is_expired());
        }
        Turn::Sleep(_) => panic!("the session goes on"),
    }
    assert_eq!(l.len(), 1);
    assert_eq!(l.find(addr(2)), Some(0));
}

#[test]
fn a_session_of_a_listener_ends_after_twice_its_expiry() {
    let mut l = listening();
    for _ in 0..256 {
        l.session(1).write(b"never acknowledged", 0).unwrap();
    }
    assert!(matches!(l.tick(1, 100 * SECOND, 0, 0), Turn::Sleep(_)));
    assert!(matches!(l.tick(1, 180 * SECOND, 10, 10), Turn::Sleep(_)));
    assert!(matches!(l.session(1).write(b"refused", 0), Err(KcpError::TooManyPending)));
    match l.tick(1, 180 * SECOND + 1, 20, 20) {
        Turn::Ended { peer, mut io, sender } => {
            assert_eq!(peer, addr(2));
            assert!(sender);
            assert!(matches!(io.write(b"over", 0), Err(KcpError::SessionExpired)));
        }
        Turn::Sleep(_) => panic!("the session goes on"),
    }
    assert_eq!(l.find(addr(1)), Some(0));
}

#[test]
fn a_session_that_refuses_its_first_datagram_is_forgotten() {
    let mut l = KcpListener::new(KcpConfig::default(), KcpOutputHandle::new());
    let buf = vec![0u8; 1400];
    assert!(matches!(l.accept(&buf, 24, addr(1), 1), Err(KcpError::UnsupportedCmd(0))));
    assert!(l.session(0).io().socket().is_closed());
    assert!(matches!(l.tick(0, 1, 0, 0), Turn::Ended { sender: false, .. }));
    assert_eq!(l.len(), 0);
}
