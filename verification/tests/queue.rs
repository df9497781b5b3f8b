use std::io::{Error, ErrorKind, Write};

use bytes::Bytes;
use tokio_kcp::{KcpOutput, KcpOutputHandle, KcpOutputInner, PeerAddr, QueueAction, SendAttempt};

fn addr(port: u16) -> PeerAddr {
    PeerAddr { ip: 0x7f00_0001, is_v6: false, port, flowinfo: 0, scope_id: 0 }
}

fn sends(action: QueueAction, port: u16, bytes: &[u8]) {
    match action {
        QueueAction::Send(peer, pkt) => {
            assert_eq!(peer, addr(port));
            assert_eq!(&pkt[..], bytes);
        }
        _ => panic!("nothing to send"),
    }
}

#[test]
fn datagrams_leave_in_the_order_of_their_coming() {
    let mut q = KcpOutputInner::new();
    assert!(q.is_empty());
    q.push_packet(Bytes::from(&b"one"[..]), addr(1));
    q.push_packet(Bytes::from(&b"two"[..]), addr(2));
    q.push_packet(Bytes::from(&b"three"[..]), addr(1));
    assert!(!q.is_empty());
    sends(q.poll(None), 1, b"one");
    sends(q.poll(Some(SendAttempt::Sent(3))), 2, b"two");
    sends(q.poll(Some(SendAttempt::Sent(3))), 1, b"three");
    assert!(matches!(q.poll(Some(SendAttempt::Sent(5))), QueueAction::WaitPackets));
    assert!(q.is_empty());
}

#[test]
fn a_datagram_that_cannot_be_sent_stays() {
    let mut q = KcpOutputInner::new();
    q.push_packet(Bytes::from(&b"one"[..]), addr(1));
    sends(q.poll(None), 1, b"one");
    assert!(matches!(q.poll(Some(SendAttempt::WouldBlock)), QueueAction::WaitWritable));
    sends(q.poll(None), 1, b"one");
    let failed = q.poll(Some(SendAttempt::Failed(Error::new(ErrorKind::Other, "gone"))));
    assert!(matches!(failed, QueueAction::Fail(ref err) if err.kind() == ErrorKind::Other));
    sends(q.poll(None), 1, b"one");
}

#[test]
fn a_closed_queue_is_finished_when_it_is_empty() {
    let mut q = KcpOutputInner::new();
    q.push_packet(Bytes::from(&b"one"[..]), addr(1));
    q.close();
    sends(q.poll(None), 1, b"one");
    assert!(matches!(q.poll(Some(SendAttempt::Sent(3))), QueueAction::Finished));
    assert!(!q.take_wake());
}

#[test]
fn a_sender_who_waits_is_woken_once() {
    let mut q = KcpOutputInner::new();
    q.notify();
    assert!(!q.take_wake());
    assert!(matches!(q.poll(None), QueueAction::WaitPackets));
    q.push_packet(Bytes::from(&b"one"[..]), addr(1));
    q.push_packet(Bytes::from(&b"two"[..]), addr(1));
    assert!(q.take_wake());
    assert!(!q.take_wake());
    sends(q.poll(None), 1, b"one");
    sends(q.poll(Some(SendAttempt::Sent(3))), 1, b"two");
    assert!(matches!(q.poll(Some(SendAttempt::Sent(3))), QueueAction::WaitPackets));
    q.close();
    assert!(q.take_wake());
}

#[test]
fn a_datagram_that_was_sent_at_once_is_not_queued() {
    let mut q = KcpOutputInner::new();
    assert_eq!(q.send_or_push(b"abc", addr(1), Some(SendAttempt::Sent(2))).unwrap(), 2);
    assert!(q.is_empty());
    let err = q.send_or_push(b"abc", addr(1), Some(SendAttempt::Failed(Error::new(ErrorKind::Other, "gone"))));
    assert_eq!(err.unwrap_err().kind(), ErrorKind::Other);
    assert!(q.is_empty());
    assert_eq!(q.send_or_push(b"abc", addr(1), Some(SendAttempt::WouldBlock)).unwrap(), 3);
    assert_eq!(q.send_or_push(b"de", addr(2), None).unwrap(), 2);
    sends(q.poll(None), 1, b"abc");
    sends(q.poll(Some(SendAttempt::Sent(3))), 2, b"de");
}

#[test]
fn an_output_writes_to_its_queue() {
    let mut out = KcpOutput::new(addr(7));
    let queue = out.queue();
    assert_eq!(out.write(b"hello").unwrap(), 5);
    out.flush().unwrap();
    sends(queue.poll(None), 7, b"hello");
    assert!(matches!(queue.poll(Some(SendAttempt::Sent(5))), QueueAction::WaitPackets));
    assert_eq!(out.write(b"again").unwrap(), 5);
    assert!(queue.take_wake());
}

#[test]
fn outputs_share_a_queue() {
    let queue = KcpOutputHandle::new();
    let mut a = KcpOutput::new_with_handle(queue.clone(), addr(1));
    let mut b = KcpOutput::new_with_handle(queue.clone(), addr(2));
    a.write(b"from a").unwrap();
    b.write(b"from b").unwrap();
    assert_eq!(queue.send_to(b"direct", addr(3)).unwrap(), 6);
    sends(queue.poll(None), 1, b"from a");
    sends(queue.poll(Some(SendAttempt::Sent(6))), 2, b"from b");
    sends(queue.poll(Some(SendAttempt::Sent(6))), 3, b"direct");
    queue.close();
    assert!(matches!(queue.poll(Some(SendAttempt::Sent(6))), QueueAction::Finished));
}

#[test]
fn a_shared_queue_begins_empty() {
    let queue = KcpOutputHandle::new();
    assert!(!queue.take_wake());
    assert!(matches!(queue.poll(None), QueueAction::WaitPackets));
    assert!(!queue.take_wake());
    queue.close();
    assert!(queue.take_wake());
    assert!(!queue.take_wake());
    assert!(matches!(queue.poll(None), QueueAction::Finished));
}
