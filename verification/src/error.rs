//! What can go wrong in a KCP session.

use vstd::prelude::*;

verus! {

/// `std::io::Error`: an I/O error, of which nothing is seen.
#[verifier::external_type_specification]
#[verifier::external_body]
pub struct ExIoError(std::io::Error);

/// `kcp::Error`: an error of a protocol machine.
#[verifier::external_type_specification]
pub struct ExKcpError(kcp::Error);

/// An error of a KCP session.
#[derive(Debug)]
pub enum KcpError {
    /// A segment belongs to another conversation: the expected one, the one found.
    ConvInconsistent(u32, u32),
    /// The MTU is too small to carry a segment.
    InvalidMtu(usize),
    /// A datagram is shorter than a segment header.
    InvalidSegmentSize(usize),
    /// A segment announces more bytes than the datagram holds: the bytes announced, those left.
    InvalidSegmentDataSize(usize, usize),
    /// The output failed.
    IoError(std::io::Error),
    /// The session was never updated.
    NeedUpdate,
    /// Nothing has arrived.
    RecvQueueEmpty,
    /// The first message has not arrived in full.
    ExpectingFragment,
    /// A segment carries an unknown command.
    UnsupportedCmd(u8),
    /// The message needs too many segments.
    UserBufTooBig,
    /// The message does not fit in the buffer.
    UserBufTooSmall,
    /// The session has expired.
    SessionExpired,
    /// The system clock reads a time before the Unix epoch.
    ClockBeforeEpoch,
    /// Too many packets wait to be sent, or the conversation number is not known yet.
    TooManyPending,
}

/// The class of an error, as an I/O caller sees it.
#[derive(Debug, Clone, Copy, PartialEq, Eq, Structural)]
pub enum ErrorClass {
    /// The call would have to wait.
    WouldBlock,
    /// The session is gone.
    BrokenPipe,
    /// The output's own error.
    Io,
    /// Anything else.
    Other,
}

/// The session error that an error of the protocol machine becomes.
pub open spec fn of_kcp(err: kcp::Error) -> KcpError {
    match err {
        kcp::Error::ConvInconsistent(e, a) => KcpError::ConvInconsistent(e, a),
        kcp::Error::InvalidMtu(n) => KcpError::InvalidMtu(n),
        kcp::Error::InvalidSegmentSize(n) => KcpError::InvalidSegmentSize(n),
        kcp::Error::InvalidSegmentDataSize(e, a) => KcpError::InvalidSegmentDataSize(e, a),
        kcp::Error::IoError(e) => KcpError::IoError(e),
        kcp::Error::NeedUpdate => KcpError::NeedUpdate,
        kcp::Error::RecvQueueEmpty => KcpError::RecvQueueEmpty,
        kcp::Error::ExpectingFragment => KcpError::ExpectingFragment,
        kcp::Error::UnsupportedCmd(c) => KcpError::UnsupportedCmd(c),
        kcp::Error::UserBufTooBig => KcpError::UserBufTooBig,
        kcp::Error::UserBufTooSmall => KcpError::UserBufTooSmall,
    }
}

/// Turns an error of the protocol machine into a session error, one for one.
pub fn from_kcp(err: kcp::Error) -> (res: KcpError)
    ensures
        res == of_kcp(err),
{
    match err {
        kcp::Error::ConvInconsistent(e, a) => KcpError::ConvInconsistent(e, a),
        kcp::Error::InvalidMtu(n) => KcpError::InvalidMtu(n),
        kcp::Error::InvalidSegmentSize(n) => KcpError::InvalidSegmentSize(n),
        kcp::Error::InvalidSegmentDataSize(e, a) => KcpError::InvalidSegmentDataSize(e, a),
        kcp::Error::IoError(e) => KcpError::IoError(e),
        kcp::Error::NeedUpdate => KcpError::NeedUpdate,
        kcp::Error::RecvQueueEmpty => KcpError::RecvQueueEmpty,
        kcp::Error::ExpectingFragment => KcpError::ExpectingFragment,
        kcp::Error::UnsupportedCmd(c) => KcpError::UnsupportedCmd(c),
        kcp::Error::UserBufTooBig => KcpError::UserBufTooBig,
        kcp::Error::UserBufTooSmall => KcpError::UserBufTooSmall,
    }
}

impl KcpError {
    /// The class of this error.
    pub open spec fn spec_class(self) -> ErrorClass {
        match self {
            KcpError::RecvQueueEmpty | KcpError::ExpectingFragment | KcpError::TooManyPending => ErrorClass::WouldBlock,
            KcpError::SessionExpired => ErrorClass::BrokenPipe,
            KcpError::IoError(_) => ErrorClass::Io,
            _ => ErrorClass::Other,
        }
    }

    /// The class of this error, as an I/O caller sees it.
    pub fn class(&self) -> (res: ErrorClass)
        ensures
            res == self.spec_class(),
    {
        match self {
            KcpError::RecvQueueEmpty => ErrorClass::WouldBlock,
            KcpError::ExpectingFragment => ErrorClass::WouldBlock,
            KcpError::TooManyPending => ErrorClass::WouldBlock,
            KcpError::SessionExpired => ErrorClass::BrokenPipe,
            KcpError::IoError(_) => ErrorClass::Io,
            _ => ErrorClass::Other,
        }
    }
}

} // verus!
