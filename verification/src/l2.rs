//! What the link-layer providers share: interfaces, errors and hardware addresses.
use vstd::prelude::*;
use vstd::string::*;

verus! {

/// A hardware address.
pub type Mac = (u8, u8, u8, u8, u8, u8);

/// Failures of the link-layer operations.
#[derive(Debug)]
pub enum L2Error {
    Denied,
    NoSuchInterface,
    FrameTooLarge,
    LinkDown,
    Io(String),
}

/// Failures of the link-layer operations, over contents.
pub enum L2Failure {
    Denied,
    NoSuchInterface,
    FrameTooLarge,
    LinkDown,
    Io(Seq<char>),
}

impl View for L2Error {
    type V = L2Failure;

    open spec fn view(&self) -> L2Failure {
        match self {
            L2Error::Denied => L2Failure::Denied,
            L2Error::NoSuchInterface => L2Failure::NoSuchInterface,
            L2Error::FrameTooLarge => L2Failure::FrameTooLarge,
            L2Error::LinkDown => L2Failure::LinkDown,
            L2Error::Io(text) => L2Failure::Io(text@),
        }
    }
}

/// An input-output failure.
pub fn io(text: &str) -> (error: L2Error)
    ensures
        error@ == L2Failure::Io(text@),
{
    L2Error::Io(String::from_str(text))
}

/// What an interface reports about itself.
#[derive(Debug)]
pub struct InterfaceInfo {
    pub name: String,
    pub mac: Mac,
    pub mtu: u32,
    pub up: bool,
}

/// What an interface reports about itself, over contents.
pub struct Described {
    pub name: Seq<char>,
    pub mac: Mac,
    pub mtu: u32,
    pub up: bool,
}

impl View for InterfaceInfo {
    type V = Described;

    open spec fn view(&self) -> Described {
        Described { name: self.name@, mac: self.mac, mtu: self.mtu, up: self.up }
    }
}

/// The bytes of a hardware address.
pub open spec fn mac_bytes(mac: Mac) -> Seq<u8> {
    seq![mac.0, mac.1, mac.2, mac.3, mac.4, mac.5]
}

/// The bytes of a hardware address.
pub fn mac_array(mac: Mac) -> (bytes: [u8; 6])
    ensures
        bytes@ == mac_bytes(mac),
{
    let bytes = [mac.0, mac.1, mac.2, mac.3, mac.4, mac.5];
    assert(bytes@ =~= mac_bytes(mac));
    bytes
}

/// What a value is over contents is of the same kind as the value itself: no two kinds are
/// taken for one another.
pub proof fn law_contents_keep_their_kind(l2_error: L2Error)
    ensures
        l2_error is Denied <==> l2_error@ is Denied,
        l2_error is NoSuchInterface <==> l2_error@ is NoSuchInterface,
        l2_error is FrameTooLarge <==> l2_error@ is FrameTooLarge,
        l2_error is LinkDown <==> l2_error@ is LinkDown,
        l2_error is Io <==> l2_error@ is Io,
{
}

} // verus!
