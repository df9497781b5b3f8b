use tokio_kcp::{
    Accepted, KcpConfig, KcpListener, KcpNoDelayConfig, KcpOutputHandle, KcpSession, KcpSessionManager, KcpStream,
    PeerAddr, Polled, QueueAction, SendAttempt, SessionAction, SessionEvent,
};

const TEST_PAYLOAD: &[u8] = b"HellO\x01WoRlD";

const MILLI: u64 = 1_000_000;

#[derive(Debug, Clone, Copy, Eq, PartialEq)]
enum TestMode {
    Default,
    Normal,
    Fast,
}

fn addr(port: u16) -> PeerAddr {
    PeerAddr { ip: 0x7f00_0001, is_v6: false, port, flowinfo: 0, scope_id: 0 }
}

/// A client and a server that sends back what it reads, with the wire between them.
struct Wire {
    client: PeerAddr,
    server: PeerAddr,
    stream: KcpStream,
    session: KcpSession,
    session_queue: KcpOutputHandle,
    listener: KcpListener,
    listener_queue: KcpOutputHandle,
    numbers: KcpSessionManager<()>,
    given: Option<u32>,
    pending: Vec<u8>,
    accepted: usize,
    millis: u32,
    wake: u32,
}

impl Wire {
    fn new(config: KcpConfig, conv: Option<u32>) -> Wire {
        let server = addr(3100);
        let listener_queue = KcpOutputHandle::new();
        let listener = KcpListener::new(config, listener_queue.clone());
        let (stream, mut session) = match conv {
            Some(conv) => KcpStream::connect_with_conv(&config, conv, server, 0),
            None => KcpStream::connect(&config, server, 0),
        };
        let session_queue = session.kcp_socket().output_queue();
        Wire {
            client: addr(4000),
            server,
            stream,
            session,
            session_queue,
            listener,
            listener_queue,
            numbers: KcpSessionManager::new(),
            given: None,
            pending: Vec::new(),
            accepted: 0,
            millis: 0,
            wake: 0,
        }
    }

    fn now(&self) -> u64 {
        self.millis as u64 * MILLI
    }

    /// Carries over what the client has sent.
    fn to_server(&mut self) {
        let now = self.now();
        let mut last = None;
        while let QueueAction::Send(to, pkt) = self.session_queue.poll(last) {
            assert_eq!(to, self.server);
            last = Some(SendAttempt::Sent(pkt.len()));
            let mut buf = vec![0u8; self.listener.recv_len()];
            buf[..pkt.len()].copy_from_slice(&pkt);
            // A client that asks for a conversation number is given one
            if kcp::get_conv(&buf) == 0 {
                if self.given.is_none() {
                    self.given = Some(self.numbers.alloc_conv());
                }
                kcp::set_conv(&mut buf, self.given.unwrap());
            }
            if let Accepted::New { .. } = self.listener.accept(&buf, pkt.len(), self.client, now).unwrap() {
                self.accepted += 1;
            }
        }
    }

    /// Carries over what the server has sent.
    fn to_client(&mut self) {
        let now = self.now();
        let mut last = None;
        while let QueueAction::Send(to, pkt) = self.listener_queue.poll(last) {
            assert_eq!(to, self.client);
            last = Some(SendAttempt::Sent(pkt.len()));
            match self.session.step(SessionEvent::Received(&pkt), now) {
                SessionAction::Wake { .. } => {}
                _ => panic!("a datagram was refused"),
            }
        }
    }

    /// Lets the server send back what it has read, as far as it can.
    fn serve(&mut self) {
        let now = self.now();
        for i in 0..self.listener.len() {
            let io = self.listener.session(i);
            loop {
                if self.pending.is_empty() {
                    let mut buf = [0u8; 2048];
                    match io.read(&mut buf, now) {
                        Ok(n) => self.pending.extend_from_slice(&buf[..n]),
                        Err(_) => break,
                    }
                }
                match io.write(&self.pending, now) {
                    Ok(n) => assert_eq!(n, self.pending.len()),
                    Err(_) => break,
                }
                self.pending.clear();
            }
            io.io().socket().update_at(self.millis, self.millis).unwrap();
        }
    }

    /// Ten milliseconds pass.
    fn turn(&mut self) {
        self.millis += 10;
        if self.millis >= self.wake {
            let tick = SessionEvent::Tick { current: self.millis, later: self.millis };
            match self.session.step(tick, self.now()) {
                SessionAction::Sleep(next) => self.wake = self.millis + next,
                _ => panic!("the session ended"),
            }
        }
        self.to_server();
        self.serve();
        self.to_client();
    }

    fn send(&mut self, buf: &[u8]) -> bool {
        let now = self.now();
        match self.stream.poll_send(&mut self.session, buf, now) {
            (Polled::Ready(Ok(n)), _) => {
                assert_eq!(n, buf.len());
                true
            }
            (Polled::Pending, _) => false,
            _ => panic!("sending failed"),
        }
    }

    fn recv(&mut self, buf: &mut [u8]) -> bool {
        let now = self.now();
        match self.stream.poll_recv(&mut self.session, buf, now) {
            (Polled::Ready(Ok(n)), _) => {
                assert_eq!(n, buf.len());
                true
            }
            (Polled::Pending, _) => false,
            _ => panic!("receiving failed"),
        }
    }
}

fn number(buf: &[u8]) -> u32 {
    u32::from_le_bytes([buf[0], buf[1], buf[2], buf[3]])
}

#[test]
fn echo() {
    let mut wire = Wire::new(KcpConfig::default(), None);
    let mut to_send = 100usize;
    let mut to_read = 100usize;
    while to_read > 0 {
        while to_send > 0 {
            let mut buf = Vec::new();
            buf.extend_from_slice(&(to_send as u32).to_le_bytes());
            buf.extend_from_slice(TEST_PAYLOAD);
            if !wire.send(&buf) {
                break;
            }
            to_send -= 1;
        }
        wire.turn();
        let mut buf = vec![0u8; 4 + TEST_PAYLOAD.len()];
        while to_read > 0 && wire.recv(&mut buf) {
            assert_eq!(number(&buf) as usize, to_read);
            assert_eq!(&buf[4..], TEST_PAYLOAD);
            to_read -= 1;
        }
        assert!(wire.millis < 600_000);
    }
    assert_eq!(wire.accepted, 1);
}

fn echo_bench(mode: TestMode) {
    let mut config = KcpConfig::default();
    config.wnd_size = (128, 128);
    match mode {
        TestMode::Default => {
            config.nodelay = KcpNoDelayConfig { nodelay: false, interval: 10, resend: 0, nc: false };
        }
        TestMode::Normal => {
            config.nodelay = KcpNoDelayConfig { nodelay: false, interval: 10, resend: 0, nc: true };
        }
        TestMode::Fast => {
            config.nodelay = KcpNoDelayConfig { nodelay: true, interval: 10, resend: 2, nc: true };
        }
    }

    let count = 1000usize;
    let mut wire = Wire::new(config, Some(0));
    let mut index = 0u32;
    let mut next = 0usize;
    let mut max_rtt = 0u32;
    let mut sum_rtt = 0u32;
    while next < count {
        if wire.millis % 20 == 0 {
            let mut buf = Vec::new();
            buf.extend_from_slice(&index.to_le_bytes());
            buf.extend_from_slice(&wire.millis.to_le_bytes());
            if wire.send(&buf) {
                index += 1;
            }
        }
        wire.turn();
        let mut buf = vec![0u8; 8];
        while next < count && wire.recv(&mut buf) {
            let sn = number(&buf);
            let ts = number(&buf[4..]);
            assert_eq!(sn as usize, next);
            next += 1;
            let rtt = wire.millis - ts;
            sum_rtt += rtt;
            if rtt > max_rtt {
                max_rtt = rtt;
            }
        }
        assert!(wire.millis < 600_000);
    }
    assert_eq!(wire.session.kcp_socket().conv(), 1);
    println!("{:?} mode result ({}ms)", mode, wire.millis);
    println!("avgrtt={} maxrtt={}", sum_rtt as usize / count, max_rtt);
    assert_eq!(wire.accepted, 1);
}

#[test]
fn echo_bench_default() {
    echo_bench(TestMode::Default);
}

#[test]
fn echo_bench_normal() {
    echo_bench(TestMode::Normal);
}

#[test]
fn echo_bench_fast() {
    echo_bench(TestMode::Fast);
}
