//! KCP, a reliable transport over datagrams.
//!
//! A session keeps a KCP protocol machine and decides what each datagram, each tick of its timer
//! and each call of its user makes of it. It touches no socket and starts no task: datagrams that
//! are to be sent are queued in a [`KcpOutputHandle`], and whoever owns the socket sends them and
//! hands in those that were received. Times are given by the caller, in nanoseconds on a clock
//! that does not run back.

pub mod config;
pub mod engine;
pub mod error;
pub mod kcp_io;
pub mod laws;
pub mod listener;
pub mod output;
pub mod session;
pub mod skcp;
pub mod stream;
pub mod utils;

pub use config::{KcpConfig, KcpNoDelayConfig};
pub use error::{ErrorClass, KcpError};
pub use kcp_io::{ClientKcpIo, KcpIo, ServerKcpIo};
pub use listener::{Accepted, KcpListener, Turn};
pub use output::{KcpOutput, KcpOutputHandle, KcpOutputInner, PeerAddr, QueueAction, SendAttempt};
pub use session::{KcpSession, KcpSessionManager, SessionAction, SessionEvent};
pub use skcp::{Received, SharedKcp};
pub use stream::{KcpStream, Polled};
