use std::io::{Error, ErrorKind};

use tokio_kcp::error::from_kcp;
use tokio_kcp::{
    ErrorClass, KcpConfig, KcpError, KcpOutput, KcpOutputHandle, PeerAddr, QueueAction, Received, SendAttempt,
    SharedKcp,
};

const PUSH: u8 = 81;
const ACK: u8 = 82;

fn peer() -> PeerAddr {
    PeerAddr { ip: 0x7f00_0001, is_v6: false, port: 3100, flowinfo: 0, scope_id: 0 }
}

/// A segment as it stands in a datagram.
fn segment(conv: u32, cmd: u8, frg: u8, sn: u32, data: &[u8]) -> Vec<u8> {
    let mut b = Vec::new();
    b.extend_from_slice(&conv.to_le_bytes());
    b.push(cmd);
    b.push(frg);
    b.extend_from_slice(&128u16.to_le_bytes());
    b.extend_from_slice(&0u32.to_le_bytes());
    b.extend_from_slice(&sn.to_le_bytes());
    b.extend_from_slice(&0u32.to_le_bytes());
    b.extend_from_slice(&(data.len() as u32).to_le_bytes());
    b.extend_from_slice(data);
    b
}

/// The datagrams that wait in a queue.
fn drain(queue: &KcpOutputHandle) -> Vec<Vec<u8>> {
    let mut out = Vec::new();
    let mut last = None;
    loop {
        match queue.poll(last) {
            QueueAction::Send(_, pkt) => {
                last = Some(SendAttempt::Sent(pkt.len()));
                out.push(pkt.to_vec());
            }
            _ => return out,
        }
    }
}

/// Settings without congestion control, so that a flush sends all that the window takes.
fn settings() -> KcpConfig {
    let mut config = KcpConfig::default();
    config.nodelay.nc = true;
    config
}

fn socket(config: &KcpConfig, conv: u32) -> SharedKcp {
    SharedKcp::new(config, conv, peer(), config.stream, 0)
}

#[test]
fn a_new_session() {
    let s = socket(&settings(), 3);
    assert_eq!(s.conv(), 3);
    assert_eq!(s.mtu(), 1400);
    assert_eq!(s.peeksize(), 0);
    assert!(!s.can_read());
    assert!(!s.has_message());
    assert!(s.has_waitsnd());
    assert!(s.can_close());
    assert!(!s.is_closed());
    assert!(!s.is_expired());
    assert_eq!(s.elapsed(700), 700);
}

#[test]
fn a_message_reaches_the_other_end() {
    let config = settings();
    let mut a = socket(&config, 3);
    let mut b = socket(&config, 3);
    assert_eq!(a.send(b"hello", 1).unwrap(), 5);
    assert!(!a.has_waitsnd());
    assert!(!a.can_close());
    a.update_at(1000, 1000).unwrap();
    b.update_at(1000, 1000).unwrap();
    let sent = drain(&a.output_queue());
    assert_eq!(sent.len(), 1);
    assert_eq!(sent[0].len(), 24 + 5);
    assert_eq!(&sent[0][24..], b"hello");
    b.input(&sent[0], 2).unwrap();
    assert!(b.can_read());
    assert_eq!(b.peeksize(), 5);
    let mut buf = [9u8; 8];
    assert_eq!(b.recv(&mut buf, 5).unwrap(), 5);
    assert_eq!(&buf, b"hello\x09\x09\x09");
    assert_eq!(b.elapsed(9), 4);
    assert!(matches!(b.recv(&mut buf, 6), Err(KcpError::RecvQueueEmpty)));

    b.flush(7).unwrap();
    assert_eq!(b.elapsed(9), 2);
    for d in drain(&b.output_queue()) {
        a.input(&d, 8).unwrap();
    }
    assert!(a.has_waitsnd());
    assert_eq!(a.elapsed(8), 0);
}

#[test]
fn messages_are_read_in_order_and_apart() {
    let mut s = socket(&settings(), 3);
    s.input(&segment(3, PUSH, 0, 1, b"second"), 1).unwrap();
    assert!(!s.can_read());
    s.input(&segment(3, PUSH, 0, 0, b"first"), 2).unwrap();
    let mut buf = [0u8; 32];
    assert_eq!(s.recv(&mut buf, 3).unwrap(), 5);
    assert_eq!(&buf[..5], b"first");
    assert_eq!(s.recv(&mut buf, 3).unwrap(), 6);
    assert_eq!(&buf[..6], b"second");
}

#[test]
fn a_message_of_several_segments() {
    let mut s = socket(&settings(), 3);
    let mut buf = [0u8; 32];
    s.input(&segment(3, PUSH, 1, 0, b"abc"), 1).unwrap();
    assert!(matches!(s.recv(&mut buf, 2), Err(KcpError::ExpectingFragment)));
    assert_eq!(s.elapsed(2), 1);
    assert!(!s.has_message());
    s.input(&segment(3, PUSH, 0, 1, b"de"), 3).unwrap();
    assert_eq!(s.peeksize(), 5);
    let mut small = [7u8; 4];
    assert!(matches!(s.recv(&mut small, 4), Err(KcpError::UserBufTooSmall)));
    assert_eq!(small, [7u8; 4]);
    assert_eq!(s.recv(&mut buf, 4).unwrap(), 5);
    assert_eq!(&buf[..5], b"abcde");
}

#[test]
fn empty_messages_are_skipped_by_default() {
    let mut config = settings();
    let mut buf = [0u8; 8];
    let mut s = socket(&config, 3);
    s.input(&segment(3, PUSH, 0, 0, b""), 1).unwrap();
    assert!(s.has_message());
    assert!(!s.can_read());
    assert!(matches!(s.recv(&mut buf, 2), Err(KcpError::RecvQueueEmpty)));
    assert!(!s.has_message());
    s.input(&segment(3, PUSH, 0, 1, b""), 1).unwrap();
    s.input(&segment(3, PUSH, 0, 2, b"x"), 1).unwrap();
    assert_eq!(s.recv(&mut buf, 2).unwrap(), 1);

    config.allow_recv_empty_packet = true;
    let mut s = socket(&config, 3);
    s.input(&segment(3, PUSH, 0, 0, b""), 1).unwrap();
    s.input(&segment(3, PUSH, 0, 1, b"x"), 1).unwrap();
    assert_eq!(s.recv(&mut buf, 2).unwrap(), 0);
    assert_eq!(s.recv(&mut buf, 2).unwrap(), 1);
}

#[test]
fn datagrams_that_are_refused() {
    let mut s = socket(&settings(), 3);
    assert!(matches!(s.input(&[0; 10], 5), Err(KcpError::InvalidSegmentSize(10))));
    let mut cut = segment(3, PUSH, 0, 0, b"abcdef");
    cut.truncate(24 + 4);
    assert!(matches!(s.input(&cut, 5), Err(KcpError::InvalidSegmentDataSize(6, 4))));
    assert!(matches!(s.input(&segment(3, 80, 0, 0, b""), 5), Err(KcpError::UnsupportedCmd(80))));
    assert!(matches!(s.input(&segment(3, 85, 0, 0, b""), 5), Err(KcpError::UnsupportedCmd(85))));
    assert_eq!(s.elapsed(5), 5);
    s.input(&segment(3, PUSH, 0, 0, b"x"), 5).unwrap();
    assert_eq!(s.elapsed(5), 0);
}

#[test]
fn datagrams_of_other_conversations_are_ignored() {
    let mut s = socket(&settings(), 3);
    s.input(&segment(4, PUSH, 0, 0, b"x"), 5).unwrap();
    assert_eq!(s.conv(), 3);
    assert!(!s.has_message());
    assert_eq!(s.elapsed(5), 5);
}

#[test]
fn the_first_segment_sets_the_conversation() {
    let config = settings();
    let mut s = socket(&config, 0);
    assert!(s.accepts(1376));
    assert!(!s.accepts(1377));
    assert!(s.try_send(&vec![0; 1377], 1).is_none());
    assert!(s.has_waitsnd());
    assert_eq!(s.send(b"give me a number", 1).unwrap(), 16);
    assert!(s.accepts(1377));
    assert!(matches!(s.try_send(b"more", 1), Some(Err(KcpError::TooManyPending))));
    assert!(!s.try_notify_writable());
    s.input(&segment(42, ACK, 0, 7, b""), 2).unwrap();
    assert_eq!(s.conv(), 42);
    assert!(s.try_notify_writable());
    assert!(!s.try_notify_writable());
    assert_eq!(s.send(b"more", 3).unwrap(), 4);
}

#[test]
fn a_full_window_has_the_sender_wait() {
    let mut config = settings();
    config.wnd_size = (2, 128);
    let mut a = socket(&config, 3);
    let mut b = socket(&config, 3);
    a.update_at(0, 0).unwrap();
    b.update_at(0, 0).unwrap();
    a.send(b"1", 1).unwrap();
    a.send(b"2", 1).unwrap();
    let err = a.send(b"3", 1).unwrap_err();
    assert!(matches!(err, KcpError::TooManyPending));
    assert_eq!(err.class(), ErrorClass::WouldBlock);
    assert!(!a.try_notify_writable());
    a.flush(2).unwrap();
    for d in drain(&a.output_queue()) {
        b.input(&d, 3).unwrap();
    }
    b.flush(4).unwrap();
    for d in drain(&b.output_queue()) {
        a.input(&d, 5).unwrap();
    }
    assert!(a.try_notify_writable());
    assert_eq!(a.send(b"3", 6).unwrap(), 1);
}

#[test]
fn a_message_may_not_take_128_segments() {
    let mut config = settings();
    config.mtu = 50;
    let mut s = socket(&config, 3);
    assert_eq!(s.send(&vec![1; 26 * 127], 1).unwrap(), 26 * 127);
    let mut s = socket(&config, 3);
    assert!(matches!(s.send(&vec![1; 26 * 127 + 1], 1), Err(KcpError::UserBufTooBig)));
    assert!(s.has_waitsnd());
}

#[test]
fn stream_mode_packs_short_messages() {
    let mut config = settings();
    config.stream = true;
    let mut s = socket(&config, 3);
    s.send(b"abc", 1).unwrap();
    s.send(b"de", 1).unwrap();
    s.send(b"", 1).unwrap();
    s.update_at(0, 0).unwrap();
    let sent = drain(&s.output_queue());
    assert_eq!(sent.len(), 1);
    assert_eq!(&sent[0][24..], b"abcde");

    let mut s = socket(&settings(), 3);
    s.send(b"abc", 1).unwrap();
    s.send(b"de", 1).unwrap();
    s.update_at(0, 0).unwrap();
    let sent = drain(&s.output_queue());
    assert_eq!(sent.len(), 1);
    assert_eq!(sent[0].len(), 24 + 3 + 24 + 2);
    assert_eq!(&sent[0][24..27], b"abc");
    assert_eq!(&sent[0][51..], b"de");
}

#[test]
fn a_session_must_be_updated_before_it_is_flushed() {
    let mut config = settings();
    config.flush_write = true;
    config.flush_acks_input = true;
    let mut s = socket(&config, 3);
    assert!(matches!(s.flush(5), Err(KcpError::NeedUpdate)));
    assert_eq!(s.elapsed(5), 5);
    assert!(matches!(s.send(b"x", 6), Err(KcpError::NeedUpdate)));
    assert!(!s.has_waitsnd());
    assert_eq!(s.elapsed(6), 0);
    assert!(matches!(s.input(&segment(3, PUSH, 0, 0, b"y"), 7), Err(KcpError::NeedUpdate)));
    assert!(s.can_read());
    assert_eq!(s.elapsed(7), 0);
}

#[test]
fn writes_and_acknowledgements_can_be_flushed_at_once() {
    let mut config = settings();
    config.flush_write = true;
    config.flush_acks_input = true;
    let mut a = socket(&config, 3);
    let mut b = socket(&config, 3);
    a.update_at(0, 0).unwrap();
    b.update_at(0, 0).unwrap();
    a.send(b"x", 1).unwrap();
    let sent = drain(&a.output_queue());
    assert_eq!(sent.len(), 1);
    b.input(&sent[0], 2).unwrap();
    b.flush(3).unwrap();
    let acks = drain(&b.output_queue());
    assert_eq!(acks.len(), 1);
    assert_eq!(acks[0].len(), 24);
    assert_eq!(acks[0][4], ACK);
    a.input(&acks[0], 3).unwrap();
    assert!(a.can_close());
}

#[test]
fn an_expired_session_is_over() {
    let mut s = socket(&settings(), 3);
    s.update_at(0, 0).unwrap();
    s.send(b"last words", 1).unwrap();
    s.input(&segment(3, PUSH, 0, 0, b"unread"), 1).unwrap();
    let (wake, flushed) = s.set_expired();
    assert!(!wake);
    flushed.unwrap();
    assert!(s.is_expired());
    let sent: Vec<u8> = drain(&s.output_queue()).concat();
    assert!(sent.ends_with(b"last words"));
    let err = s.send(b"x", 2).unwrap_err();
    assert!(matches!(err, KcpError::SessionExpired));
    assert_eq!(err.class(), ErrorClass::BrokenPipe);
    let mut buf = [5u8; 8];
    assert_eq!(s.recv(&mut buf, 3).unwrap(), 0);
    assert_eq!(buf, [5u8; 8]);
    assert_eq!(s.elapsed(3), 2);
}

#[test]
fn expiring_wakes_a_sender_who_waits() {
    let mut s = socket(&settings(), 0);
    s.send(b"a", 1).unwrap();
    assert!(s.send(b"b", 1).is_err());
    let (wake, flushed) = s.set_expired();
    assert!(wake);
    assert!(matches!(flushed, Err(KcpError::NeedUpdate)));
    let (wake, _) = s.set_expired();
    assert!(!wake);
}

#[test]
fn received_datagrams_are_fetched() {
    let mut s = socket(&settings(), 3);
    let d = segment(3, PUSH, 0, 0, b"fetched");
    {
        let slot = s.recv_slot();
        assert_eq!(slot.len(), 1400);
        slot[..d.len()].copy_from_slice(&d);
    }
    s.fetch(Received::NotReady, 1).unwrap();
    s.fetch(Received::WouldBlock, 1).unwrap();
    assert!(!s.has_message());
    s.fetch(Received::Data(d.len()), 2).unwrap();
    assert_eq!(s.peeksize(), 7);
    assert_eq!(s.elapsed(2), 0);
    let failed = s.fetch(Received::Failed(Error::new(ErrorKind::Other, "gone")), 3).unwrap_err();
    assert_eq!(failed.class(), ErrorClass::Io);
    assert!(matches!(failed, KcpError::IoError(ref err) if err.kind() == ErrorKind::Other));
    assert!(matches!(s.fetch(Received::Data(3), 3), Err(KcpError::InvalidSegmentSize(3))));
}

#[test]
fn what_follows_each_answer_to_a_datagram() {
    let mut s = socket(&settings(), 3);
    s.after_input(Err(kcp::Error::ConvInconsistent(3, 4)), 9).unwrap();
    assert_eq!(s.elapsed(9), 9);
    assert!(matches!(s.after_input(Err(kcp::Error::UnsupportedCmd(1)), 9), Err(KcpError::UnsupportedCmd(1))));
    assert_eq!(s.elapsed(9), 9);
    s.after_input(Ok(24), 9).unwrap();
    assert_eq!(s.elapsed(9), 0);
}

#[test]
fn an_update_says_when_to_come_back() {
    let mut config = settings();
    config.nodelay.interval = 50;
    let mut s = socket(&config, 3);
    let next = s.update_at(1000, 1000).unwrap();
    assert_eq!(next, 50);
    assert_eq!(s.update_at(1020, 1020).unwrap(), 30);
    assert_eq!(s.update_at(1020, 1049).unwrap(), 1);
    assert_eq!(s.update_at(1050, 1050).unwrap(), 50);
    assert!(s.update().unwrap() <= 50);
}

#[test]
fn an_update_needs_a_clock() {
    let mut config = settings();
    config.nodelay.interval = 50;
    let mut s = socket(&config, 3);
    assert!(matches!(s.update_from(None), Err(KcpError::ClockBeforeEpoch)));
    assert!(matches!(s.flush(1), Err(KcpError::NeedUpdate)));
    s.update_from(Some(1000)).unwrap();
    assert_eq!(s.next_from(Some(1010)).unwrap(), 40);
    assert!(matches!(s.next_from(None), Err(KcpError::ClockBeforeEpoch)));
    assert_eq!(s.elapsed(7), 7);
    s.flush(1).unwrap();
}

#[test]
fn closing_is_noted() {
    let mut s = socket(&settings(), 3);
    s.close();
    assert!(s.is_closed());
    assert!(!s.is_expired());
}

#[test]
fn a_clock_that_runs_back_shows_no_idleness() {
    let mut s = socket(&settings(), 3);
    s.input(&segment(3, PUSH, 0, 0, b"x"), 100).unwrap();
    assert_eq!(s.elapsed(40), 0);
}

#[test]
fn sessions_write_to_the_output_they_are_given() {
    let config = settings();
    let queue = KcpOutputHandle::new();
    let output = KcpOutput::new_with_handle(queue.clone(), peer());
    let mut s = SharedKcp::new_with_output(&config, 3, output, false, 0);
    s.send(b"x", 1).unwrap();
    s.update_at(0, 0).unwrap();
    match queue.poll(None) {
        QueueAction::Send(to, pkt) => {
            assert_eq!(to, peer());
            assert_eq!(pkt.len(), 25);
            assert_eq!(&pkt[..4], &[3u8, 0, 0, 0][..]);
        }
        _ => panic!("nothing to send"),
    }
}

#[test]
fn errors_of_the_machine_keep_their_meaning() {
    assert!(matches!(from_kcp(kcp::Error::ConvInconsistent(1, 2)), KcpError::ConvInconsistent(1, 2)));
    assert!(matches!(from_kcp(kcp::Error::InvalidMtu(7)), KcpError::InvalidMtu(7)));
    assert!(matches!(from_kcp(kcp::Error::NeedUpdate), KcpError::NeedUpdate));
    assert!(matches!(from_kcp(kcp::Error::UserBufTooSmall), KcpError::UserBufTooSmall));
    assert_eq!(from_kcp(kcp::Error::RecvQueueEmpty).class(), ErrorClass::WouldBlock);
    assert_eq!(from_kcp(kcp::Error::ExpectingFragment).class(), ErrorClass::WouldBlock);
    assert_eq!(from_kcp(kcp::Error::UserBufTooBig).class(), ErrorClass::Other);
    assert_eq!(KcpError::ClockBeforeEpoch.class(), ErrorClass::Other);
}

#[test]
fn a_fragment_that_comes_twice_is_read_once() {
    let mut s = socket(&settings(), 3);
    let mut buf = [0u8; 8];
    s.input(&segment(3, PUSH, 0, 1, b"two"), 1).unwrap();
    s.input(&segment(3, PUSH, 0, 1, b"other"), 1).unwrap();
    s.input(&segment(3, PUSH, 0, 0, b"one"), 1).unwrap();
    s.input(&segment(3, PUSH, 0, 0, b"other"), 1).unwrap();
    assert_eq!(s.recv(&mut buf, 2).unwrap(), 3);
    assert_eq!(&buf[..3], b"one");
    assert_eq!(s.recv(&mut buf, 2).unwrap(), 3);
    assert_eq!(&buf[..3], b"two");
    s.input(&segment(3, PUSH, 0, 1, b"other"), 1).unwrap();
    assert!(matches!(s.recv(&mut buf, 2), Err(KcpError::RecvQueueEmpty)));
}

#[test]
fn fragments_come_in_any_order() {
    let orders = [[0u32, 1, 2], [0, 2, 1], [1, 0, 2], [1, 2, 0], [2, 0, 1], [2, 1, 0]];
    for order in orders.iter() {
        let mut s = socket(&settings(), 3);
        for sn in order.iter() {
            let text = [b'a' + *sn as u8];
            s.input(&segment(3, PUSH, 2 - *sn as u8, *sn, &text), 1).unwrap();
        }
        let mut buf = [0u8; 8];
        assert_eq!(s.recv(&mut buf, 2).unwrap(), 3);
        assert_eq!(&buf[..3], b"abc");
    }
}

#[test]
fn fragments_outside_the_receive_window_are_dropped() {
    let mut config = settings();
    config.wnd_size = (32, 128);
    let mut s = socket(&config, 3);
    let mut buf = [0u8; 8];
    s.input(&segment(3, PUSH, 0, 128, b"too early"), 1).unwrap();
    for sn in 0..128u32 {
        s.input(&segment(3, PUSH, 0, sn, &[sn as u8]), 1).unwrap();
    }
    for sn in 0..128u32 {
        assert_eq!(s.recv(&mut buf, 2).unwrap(), 1);
        assert_eq!(buf[0], sn as u8);
    }
    assert!(!s.has_message());
    s.input(&segment(3, PUSH, 0, 128, b"in time"), 1).unwrap();
    assert_eq!(s.recv(&mut buf, 2).unwrap(), 7);
}

#[test]
fn an_acknowledgement_frees_one_segment() {
    let mut config = settings();
    config.wnd_size = (2, 128);
    let mut s = socket(&config, 3);
    s.update_at(0, 0).unwrap();
    s.send(b"0", 1).unwrap();
    s.send(b"1", 1).unwrap();
    s.flush(1).unwrap();
    assert!(matches!(s.send(b"2", 1), Err(KcpError::TooManyPending)));
    s.input(&segment(3, ACK, 0, 7, b""), 2).unwrap();
    assert!(matches!(s.send(b"2", 2), Err(KcpError::TooManyPending)));
    s.input(&segment(3, ACK, 0, 1, b""), 2).unwrap();
    assert!(!s.has_waitsnd());
    s.input(&segment(3, ACK, 0, 0, b""), 2).unwrap();
    assert!(s.has_waitsnd());
}

#[test]
fn a_segment_acknowledges_all_before_a_number() {
    let mut s = socket(&settings(), 3);
    s.update_at(0, 0).unwrap();
    for _ in 0..3 {
        s.send(b"x", 1).unwrap();
    }
    s.flush(1).unwrap();
    let mut tell = segment(3, 84, 0, 0, b"");
    tell[16] = 2;
    s.input(&tell, 2).unwrap();
    assert!(!s.has_waitsnd());
    tell[16] = 3;
    s.input(&tell, 2).unwrap();
    assert!(s.has_waitsnd());
}

#[test]
fn a_long_message_is_cut() {
    let mut config = settings();
    config.mtu = 50;
    let mut s = socket(&config, 3);
    s.update_at(0, 0).unwrap();
    let message: Vec<u8> = (0..60).collect();
    assert_eq!(s.send(&message, 1).unwrap(), 60);
    s.flush(1).unwrap();
    let sent = drain(&s.output_queue());
    assert_eq!(sent.len(), 3);
    assert_eq!(&sent[0][24..], &message[..26]);
    assert_eq!(&sent[1][24..], &message[26..52]);
    assert_eq!(&sent[2][24..], &message[52..]);
    assert_eq!((sent[0][5], sent[1][5], sent[2][5]), (2, 1, 0));
}

#[test]
fn a_datagram_takes_nothing_away() {
    let mut s = socket(&settings(), 3);
    s.send(b"to be sent", 1).unwrap();
    s.input(&segment(3, PUSH, 0, 0, b"to be read"), 1).unwrap();
    let mut two = segment(3, PUSH, 0, 1, b"behind");
    two.extend_from_slice(&segment(4, PUSH, 0, 2, b"foreign"));
    s.input(&two, 2).unwrap();
    assert!(s.input(&[1; 30], 2).is_ok());
    assert!(!s.has_waitsnd());
    let mut buf = [0u8; 16];
    assert_eq!(s.recv(&mut buf, 3).unwrap(), 10);
    assert_eq!(&buf[..10], b"to be read");
    assert_eq!(s.recv(&mut buf, 3).unwrap(), 6);
    assert_eq!(&buf[..6], b"behind");
    assert!(!s.has_message());
}

#[test]
fn flushing_leaves_what_waits() {
    let mut s = socket(&settings(), 3);
    s.update_at(0, 0).unwrap();
    s.send(b"x", 1).unwrap();
    s.flush(2).unwrap();
    assert!(!s.has_waitsnd());
    assert_eq!(drain(&s.output_queue()).len(), 1);
    s.flush(3).unwrap();
    assert!(!s.has_waitsnd());
    assert!(drain(&s.output_queue()).is_empty());
}

#[test]
fn a_long_message_is_read_whole() {
    let mut config = settings();
    config.mtu = 50;
    let mut a = socket(&config, 3);
    let mut b = socket(&config, 3);
    a.update_at(0, 0).unwrap();
    let message: Vec<u8> = (0..200).collect();
    a.send(&message, 1).unwrap();
    a.send(b"behind", 1).unwrap();
    a.flush(1).unwrap();
    let sent = drain(&a.output_queue());
    for d in sent.iter().rev() {
        b.input(d, 2).unwrap();
    }
    let mut buf = [0u8; 256];
    assert_eq!(b.recv(&mut buf, 3).unwrap(), 200);
    assert_eq!(&buf[..200], &message[..]);
    assert_eq!(b.recv(&mut buf, 3).unwrap(), 6);
    assert_eq!(&buf[..6], b"behind");
}

#[test]
fn a_stream_is_read_byte_for_byte() {
    let mut config = settings();
    config.mtu = 50;
    config.stream = true;
    let mut a = socket(&config, 3);
    let mut b = socket(&config, 3);
    a.update_at(0, 0).unwrap();
    let first: Vec<u8> = (0..40).collect();
    let second: Vec<u8> = (40..100).collect();
    a.send(&first, 1).unwrap();
    a.send(&second, 1).unwrap();
    a.flush(1).unwrap();
    for d in drain(&a.output_queue()) {
        b.input(&d, 2).unwrap();
    }
    let mut all = Vec::new();
    let mut buf = [0u8; 64];
    while let Ok(n) = b.recv(&mut buf, 3) {
        all.extend_from_slice(&buf[..n]);
    }
    let expected: Vec<u8> = (0..100).collect();
    assert_eq!(all, expected);
}

#[test]
fn fragment_numbers_are_left_to_the_machine() {
    let mut s = socket(&settings(), 3);
    s.input(&segment(3, PUSH, 255, 100_000, b"outside the window"), 5).unwrap();
    assert_eq!(s.elapsed(5), 0);
    assert!(!s.has_message());
    let mut two = segment(3, PUSH, 0, 0, b"good");
    two.extend_from_slice(&segment(3, PUSH, 255, 1, b"odd"));
    s.input(&two, 7).unwrap();
    assert_eq!(s.elapsed(7), 0);
    let mut buf = [0u8; 8];
    assert_eq!(s.recv(&mut buf, 8).unwrap(), 4);
    assert_eq!(&buf[..4], b"good");
    s.input(&segment(4, PUSH, 255, 2, b"foreign"), 9).unwrap();
    assert_eq!(s.elapsed(9), 1);
    assert!(s.has_message());
    assert_eq!(s.peeksize(), 3);
    assert_eq!(s.recv(&mut buf, 9).unwrap(), 3);
    assert_eq!(&buf[..3], b"odd");
    assert!(!s.has_message());
}

#[test]
fn a_read_would_give_a_message() {
    let mut s = socket(&settings(), 3);
    assert!(!s.readable());
    s.input(&segment(3, PUSH, 0, 0, b""), 1).unwrap();
    assert!(s.has_message());
    assert!(!s.readable());
    assert!(!s.has_message());
    s.input(&segment(3, PUSH, 0, 1, b""), 1).unwrap();
    s.input(&segment(3, PUSH, 0, 2, b"full"), 1).unwrap();
    assert!(!s.can_read());
    assert!(s.readable());
    assert_eq!(s.peeksize(), 4);
    assert_eq!(s.elapsed(3), 2);
}
