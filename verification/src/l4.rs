//! What the transport providers share: addresses and errors.
use vstd::prelude::*;

verus! {

/// An internet address.
#[derive(Clone, Copy, PartialEq, Eq, Structural, Debug)]
pub enum IpAddress {
    V4(u8, u8, u8, u8),
    V6(u16, u16, u16, u16, u16, u16, u16, u16),
}

/// An internet address and a port.
#[derive(Clone, Copy, PartialEq, Eq, Structural, Debug)]
pub struct SocketAddress {
    pub address: IpAddress,
    pub port: u16,
}

/// Failures of the transport operations.
#[derive(Debug)]
pub enum L4Error {
    Denied,
    AddressInUse,
    AddressUnavailable,
    ConnectionRefused,
    ConnectionReset,
    NotConnected,
    MessageTooLarge,
    TimedOut,
    Unreachable,
    Io(String),
}

/// Failures of the transport operations, over contents.
pub enum L4Failure {
    Denied,
    AddressInUse,
    AddressUnavailable,
    ConnectionRefused,
    ConnectionReset,
    NotConnected,
    MessageTooLarge,
    TimedOut,
    Unreachable,
    Io(Seq<char>),
}

impl View for L4Error {
    type V = L4Failure;

    open spec fn view(&self) -> L4Failure {
        match self {
            L4Error::Denied => L4Failure::Denied,
            L4Error::AddressInUse => L4Failure::AddressInUse,
            L4Error::AddressUnavailable => L4Failure::AddressUnavailable,
            L4Error::ConnectionRefused => L4Failure::ConnectionRefused,
            L4Error::ConnectionReset => L4Failure::ConnectionReset,
            L4Error::NotConnected => L4Failure::NotConnected,
            L4Error::MessageTooLarge => L4Failure::MessageTooLarge,
            L4Error::TimedOut => L4Failure::TimedOut,
            L4Error::Unreachable => L4Failure::Unreachable,
            L4Error::Io(text) => L4Failure::Io(text@),
        }
    }
}

/// What a value is over contents is of the same kind as the value itself: no two kinds are
/// taken for one another.
pub proof fn law_contents_keep_their_kind(l4_error: L4Error)
    ensures
        l4_error is Denied <==> l4_error@ is Denied,
        l4_error is AddressInUse <==> l4_error@ is AddressInUse,
        l4_error is AddressUnavailable <==> l4_error@ is AddressUnavailable,
        l4_error is ConnectionRefused <==> l4_error@ is ConnectionRefused,
        l4_error is ConnectionReset <==> l4_error@ is ConnectionReset,
        l4_error is NotConnected <==> l4_error@ is NotConnected,
        l4_error is MessageTooLarge <==> l4_error@ is MessageTooLarge,
        l4_error is TimedOut <==> l4_error@ is TimedOut,
        l4_error is Unreachable <==> l4_error@ is Unreachable,
        l4_error is Io <==> l4_error@ is Io,
{
}

} // verus!
