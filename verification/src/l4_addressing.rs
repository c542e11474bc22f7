//! How the transport provider over a link addresses that link: fixed values, or a lease
//! that the network gives.
use vstd::prelude::*;
use vstd::string::*;

use crate::l4::{IpAddress, L4Error, L4Failure, SocketAddress};
use crate::l4_over_l2::quad_text;
use crate::stack::Ipv4;
use crate::text::{
    byte_of, contents, debug_text, decimal, law_bytes_are_read_back, law_text_is_cut_at_separators,
    parse_byte, pieces, push_debug, push_decimal, same, split,
};

verus! {

/// The prefix length where none is given.
pub const PREFIX_LEN: u8 = 24;

/// Fixed addressing.
#[derive(Clone, Copy, PartialEq, Eq, Structural, Debug)]
pub struct Addressing {
    pub address: Ipv4,
    pub prefix_len: u8,
    pub gateway: Ipv4,
}

impl Addressing {
    /// The addressing of an unconfigured provider: that of the usual emulated network.
    pub open spec fn spec_defaults() -> Addressing {
        Addressing {
            address: Ipv4(10, 0, 2, 15),
            prefix_len: PREFIX_LEN,
            gateway: Ipv4(10, 0, 2, 2),
        }
    }

    /// The addressing of an unconfigured provider.
    pub fn defaults() -> (addressing: Addressing)
        ensures
            addressing == Addressing::spec_defaults(),
    {
        Addressing {
            address: Ipv4(10, 0, 2, 15),
            prefix_len: PREFIX_LEN,
            gateway: Ipv4(10, 0, 2, 2),
        }
    }
}

/// How the link is addressed.
#[derive(Clone, Copy, PartialEq, Eq, Structural, Debug)]
pub enum AddressMode {
    Static(Addressing),
    Dhcp,
}

/// How the link is addressed, for what was configured.
pub open spec fn mode_of(configured: Option<AddressMode>) -> AddressMode {
    match configured {
        Some(mode) => mode,
        None => AddressMode::Static(Addressing::spec_defaults()),
    }
}

/// The fixed addressing, where there is one.
pub open spec fn static_of(mode: AddressMode) -> Option<Addressing> {
    match mode {
        AddressMode::Static(addressing) => Some(addressing),
        AddressMode::Dhcp => None,
    }
}

/// How the link is addressed.
pub fn mode(configured: &Option<AddressMode>) -> (mode: AddressMode)
    ensures
        mode == mode_of(*configured),
{
    match configured {
        Some(mode) => *mode,
        None => AddressMode::Static(Addressing::defaults()),
    }
}

/// The fixed addressing, where there is one.
pub fn static_addressing(configured: &Option<AddressMode>) -> (addressing: Option<Addressing>)
    ensures
        addressing == static_of(mode_of(*configured)),
{
    match mode(configured) {
        AddressMode::Static(addressing) => Some(addressing),
        AddressMode::Dhcp => None,
    }
}

/// The address that a text of four numbers between dots denotes.
pub open spec fn quad_of(text: Seq<char>) -> Option<Ipv4> {
    let parts = pieces(text, '.');
    if parts.len() == 4 && byte_of(parts[0], 10) is Some && byte_of(parts[1], 10) is Some
        && byte_of(parts[2], 10) is Some && byte_of(parts[3], 10) is Some {
        Some(
            Ipv4(
                byte_of(parts[0], 10)->0,
                byte_of(parts[1], 10)->0,
                byte_of(parts[2], 10)->0,
                byte_of(parts[3], 10)->0,
            ),
        )
    } else {
        None
    }
}

/// What is said of a text that denotes no address.
pub open spec fn not_a_quad(text: Seq<char>) -> Seq<char> {
    "not a dotted-quad IPv4 address: "@ + debug_text(text)
}

/// Read an address of four numbers between dots.
pub fn parse_ipv4(text: &str) -> (result: Result<Ipv4, String>)
    ensures
        match result {
            Ok(address) => quad_of(text@) == Some(address),
            Err(said) => quad_of(text@) is None && said@ == not_a_quad(text@),
        },
{
    let parts = split(text, '.');
    proof {
        assert(contents(parts@).len() == parts@.len());
        assert(forall|i: int|
            0 <= i < parts@.len() ==> (#[trigger] contents(parts@)[i]) == parts@[i]@);
    }
    if parts.len() == 4 {
        if let (Some(a), Some(b), Some(c), Some(d)) = (
            parse_byte(&parts[0], 10),
            parse_byte(&parts[1], 10),
            parse_byte(&parts[2], 10),
            parse_byte(&parts[3], 10),
        ) {
            return Ok(Ipv4(a, b, c, d));
        }
    }
    let mut said = String::from_str("not a dotted-quad IPv4 address: ");
    push_debug(&mut said, text);
    Err(said)
}

/// What the three arguments of the configuration come to.
pub open spec fn configured(
    address: Seq<char>,
    prefix_length: Option<u8>,
    gateway: Option<Seq<char>>,
) -> Result<AddressMode, Seq<char>> {
    if address == "dhcp"@ {
        if prefix_length is Some || gateway is Some {
            Err(
                "--address dhcp acquires the prefix length and gateway from the lease; do not combine it with --prefix-length or --gateway"@,
            )
        } else {
            Ok(AddressMode::Dhcp)
        }
    } else if quad_of(address) is None {
        Err(not_a_quad(address) + " (or `dhcp` to acquire addressing from the network)"@)
    } else if gateway is None {
        Err(
            "static addressing needs --gateway (or use `--address dhcp` to acquire everything from the network)"@,
        )
    } else if quad_of(gateway->0) is None {
        Err(not_a_quad(gateway->0))
    } else {
        let prefix = match prefix_length {
            Some(prefix) => prefix,
            None => PREFIX_LEN,
        };
        if prefix > 32 {
            Err("prefix-length must be 0..=32, not "@ + decimal(prefix as nat))
        } else {
            Ok(
                AddressMode::Static(
                    Addressing {
                        address: quad_of(address)->0,
                        prefix_len: prefix,
                        gateway: quad_of(gateway->0)->0,
                    },
                ),
            )
        }
    }
}

/// The contents of an optional text.
pub open spec fn text_of(text: Option<String>) -> Option<Seq<char>> {
    match text {
        Some(text) => Some(text@),
        None => None,
    }
}

/// Decide the addressing from the arguments of the configuration.
pub fn configure(address: &str, prefix_length: Option<u8>, gateway: Option<String>) -> (result: Result<
    AddressMode,
    String,
>)
    ensures
        match result {
            Ok(mode) => configured(address@, prefix_length, text_of(gateway)) == Ok::<
                AddressMode,
                Seq<char>,
            >(mode),
            Err(said) => configured(address@, prefix_length, text_of(gateway)) == Err::<
                AddressMode,
                Seq<char>,
            >(said@),
        },
{
    if same(address, "dhcp") {
        if prefix_length.is_some() || gateway.is_some() {
            return Err(
                String::from_str(
                    "--address dhcp acquires the prefix length and gateway from the lease; do not combine it with --prefix-length or --gateway",
                ),
            );
        }
        return Ok(AddressMode::Dhcp);
    }
    let address = match parse_ipv4(address) {
        Ok(address) => address,
        Err(said) => {
            let mut said = said;
            said.append(" (or `dhcp` to acquire addressing from the network)");
            return Err(said);
        },
    };
    let gateway = match gateway {
        Some(gateway) => gateway,
        None => {
            return Err(
                String::from_str(
                    "static addressing needs --gateway (or use `--address dhcp` to acquire everything from the network)",
                ),
            );
        },
    };
    let gateway = match parse_ipv4(gateway.as_str()) {
        Ok(gateway) => gateway,
        Err(said) => {
            return Err(said);
        },
    };
    let prefix_len: u8 = match prefix_length {
        Some(prefix) => prefix,
        None => PREFIX_LEN,
    };
    if prefix_len > 32 {
        let mut said = String::from_str("prefix-length must be 0..=32, not ");
        push_decimal(&mut said, prefix_len as u64);
        return Err(said);
    }
    Ok(AddressMode::Static(Addressing { address, prefix_len, gateway }))
}

/// The address of a destination; only the shorter family is reachable.
pub fn destination_v4(address: &IpAddress) -> (destination: Result<Ipv4, L4Error>)
    ensures
        match destination {
            Ok(quad) => address == quad.ip(),
            Err(error) => address is V6 && error@ == L4Failure::Unreachable,
        },
{
    match address {
        IpAddress::V4(a, b, c, d) => Ok(Ipv4(*a, *b, *c, *d)),
        IpAddress::V6(..) => Err(L4Error::Unreachable),
    }
}

/// The address that the link has, with its prefix length: what the stack bound, or what
/// it will bind before it exists.
pub open spec fn bound_of(
    stack: Option<Option<(Ipv4, u8)>>,
    configured: Option<AddressMode>,
) -> Option<(Ipv4, u8)> {
    match stack {
        Some(bound) => bound,
        None => match static_of(mode_of(configured)) {
            Some(addressing) => Some((addressing.address, addressing.prefix_len)),
            None => None,
        },
    }
}

/// The address that the link has.
pub fn bound_address(stack: &Option<Option<(Ipv4, u8)>>, configured: &Option<AddressMode>) -> (bound:
    Option<(Ipv4, u8)>)
    ensures
        bound == bound_of(*stack, *configured),
{
    match stack {
        Some(bound) => *bound,
        None => match static_addressing(configured) {
            Some(addressing) => Some((addressing.address, addressing.prefix_len)),
            None => None,
        },
    }
}

/// Whether a local address can be bound: an unspecified one, or the one that the link has.
pub open spec fn bindable_with(bound: Option<(Ipv4, u8)>, address: IpAddress) -> bool {
    ||| address == IpAddress::V4(0, 0, 0, 0)
    ||| address == IpAddress::V6(0, 0, 0, 0, 0, 0, 0, 0)
    ||| bound matches Some((ours, _)) && address == ours.ip()
}

/// Whether a local address can be bound.
pub fn bindable(bound: &Option<(Ipv4, u8)>, address: &IpAddress) -> (yes: bool)
    ensures
        yes == bindable_with(*bound, *address),
{
    match address {
        IpAddress::V4(a, b, c, d) => {
            let quad = Ipv4(*a, *b, *c, *d);
            if quad == Ipv4(0, 0, 0, 0) {
                return true;
            }
            match bound {
                Some((bound, _)) => quad == *bound,
                None => false,
            }
        },
        IpAddress::V6(..) => *address == IpAddress::V6(0, 0, 0, 0, 0, 0, 0, 0),
    }
}

/// The address that the link has, with a port; zeros where it has none.
pub open spec fn local_of(bound: Option<(Ipv4, u8)>, port: u16) -> SocketAddress {
    SocketAddress {
        address: match bound {
            Some((address, _)) => address.ip(),
            None => IpAddress::V4(0, 0, 0, 0),
        },
        port,
    }
}

/// The address that the link has, with a port.
pub fn local_address_with(bound: &Option<(Ipv4, u8)>, port: u16) -> (local: SocketAddress)
    ensures
        local == local_of(*bound, port),
{
    let address = match bound {
        Some((address, _)) => address.ip(),
        None => IpAddress::V4(0, 0, 0, 0),
    };
    SocketAddress { address, port }
}

/// The name servers that the addressing tells of without a lease; nothing where a lease
/// is what tells.
pub fn fixed_dns_servers(configured: &Option<AddressMode>) -> (servers: Option<Vec<IpAddress>>)
    ensures
        match *configured {
            None => servers matches Some(list) && list@ == seq![Ipv4(10, 0, 2, 3).ip()],
            Some(AddressMode::Static(_)) => servers matches Some(list) && list@ == Seq::<
                IpAddress,
            >::empty(),
            Some(AddressMode::Dhcp) => servers is None,
        },
{
    match configured {
        None => {
            let mut list: Vec<IpAddress> = Vec::new();
            list.push(Ipv4(10, 0, 2, 3).ip());
            assert(list@ =~= seq![Ipv4(10, 0, 2, 3).ip()]);
            Some(list)
        },
        Some(AddressMode::Static(_)) => Some(Vec::new()),
        Some(AddressMode::Dhcp) => None,
    }
}

/// Whatever configuration is accepted, a fixed prefix length fits an address.
pub proof fn law_prefix_fits(address: Seq<char>, prefix_length: Option<u8>, gateway: Option<Seq<char>>)
    ensures
        configured(address, prefix_length, gateway) matches Ok(AddressMode::Static(addressing))
            ==> addressing.prefix_len <= 32,
{
}

/// Asking for a lease goes with no other argument, and only the word `dhcp` asks for it.
pub proof fn law_dhcp_stands_alone(
    address: Seq<char>,
    prefix_length: Option<u8>,
    gateway: Option<Seq<char>>,
)
    ensures
        configured(address, prefix_length, gateway) == Ok::<AddressMode, Seq<char>>(
            AddressMode::Dhcp,
        ) <==> address == "dhcp"@ && prefix_length is None && gateway is None,
{
}

proof fn lemma_four_pieces(a: Seq<char>, b: Seq<char>, c: Seq<char>, d: Seq<char>)
    requires
        !a.contains('.'),
        !b.contains('.'),
        !c.contains('.'),
        !d.contains('.'),
    ensures
        pieces(a + seq!['.'] + b + seq!['.'] + c + seq!['.'] + d, '.') == seq![a, b, c, d],
{
    let dot = seq!['.'];
    law_text_is_cut_at_separators(a, b, '.');
    law_text_is_cut_at_separators(a + dot + b, c, '.');
    law_text_is_cut_at_separators(a + dot + b + dot + c, d, '.');
    law_text_is_cut_at_separators(b, a, '.');
    law_text_is_cut_at_separators(c, a, '.');
    law_text_is_cut_at_separators(d, a, '.');
    assert(pieces(a + dot + b + dot + c + dot + d, '.') =~= seq![a, b, c, d]);
}

/// An address that is written down is the address that is read.
pub proof fn law_addresses_are_read_back(address: Ipv4)
    ensures
        quad_of(quad_text(address)) == Some(address),
{
    let dot = seq!['.'];
    reveal_strlit(".");
    assert("."@ =~= dot);
    let (a, b) = (decimal(address.0 as nat), decimal(address.1 as nat));
    let (c, d) = (decimal(address.2 as nat), decimal(address.3 as nat));
    law_bytes_are_read_back(address.0 as nat, a, 10);
    law_bytes_are_read_back(address.1 as nat, b, 10);
    law_bytes_are_read_back(address.2 as nat, c, 10);
    law_bytes_are_read_back(address.3 as nat, d, 10);
    lemma_four_pieces(a, b, c, d);
    assert(quad_text(address) =~= a + dot + b + dot + c + dot + d);
}

/// A fixed configuration is taken as it is given: the address, the gateway and the prefix
/// length, which is 24 where none is given. It needs a gateway, and a prefix length of no
/// more than 32.
pub proof fn law_fixed_addressing_is_as_given(
    address: Ipv4,
    prefix_length: Option<u8>,
    gateway: Ipv4,
)
    ensures
        ({
            let prefix = match prefix_length {
                Some(prefix) => prefix,
                None => 24,
            };
            match configured(quad_text(address), prefix_length, Some(quad_text(gateway))) {
                Ok(mode) => prefix <= 32 && mode == AddressMode::Static(
                    Addressing { address, prefix_len: prefix, gateway },
                ),
                Err(_) => prefix > 32,
            }
        }),
        configured(quad_text(address), prefix_length, None) is Err,
{
    law_addresses_are_read_back(address);
    law_addresses_are_read_back(gateway);
    lemma_dhcp_is_no_address();
}

proof fn lemma_dhcp_is_no_address()
    ensures
        quad_of("dhcp"@) is None,
{
    reveal_strlit("dhcp");
    let word = "dhcp"@;
    assert(!word.contains('.')) by {
        if word.contains('.') {
            let i = choose|i: int| 0 <= i < word.len() && word[i] == '.';
        }
    }
    law_text_is_cut_at_separators(word, word, '.');
}

/// A provider that was not configured has the usual address, and one that was has its own;
/// only a lease leaves the address open until it comes. Once the stack stands, what it bound
/// counts.
pub proof fn law_address_in_use(
    configured: Option<AddressMode>,
    addressing: Addressing,
    bound: Option<(Ipv4, u8)>,
)
    ensures
        bound_of(Some(bound), configured) == bound,
        bound_of(None, Some(AddressMode::Static(addressing))) == Some(
            (addressing.address, addressing.prefix_len),
        ),
        bound_of(None, Some(AddressMode::Dhcp)) is None,
        bound_of(None, None) == Some((Ipv4(10, 0, 2, 15), 24u8)),
        static_of(mode_of(Some(AddressMode::Static(addressing)))) == Some(addressing),
        static_of(mode_of(Some(AddressMode::Dhcp))) is None,
{
}

/// A local address can be bound where it stands for any or is the one that the link has, and
/// a binding is at the address that the link has.
pub proof fn law_local_addresses(bound: Option<(Ipv4, u8)>, address: Ipv4, port: u16)
    ensures
        bindable_with(bound, address.ip()) <==> address == Ipv4(0, 0, 0, 0) || (bound matches Some(
            (ours, _),
        ) && ours == address),
        local_of(bound, port).port == port,
        bound matches Some((ours, _)) ==> local_of(bound, port).address == ours.ip(),
        bound is None ==> local_of(bound, port).address == IpAddress::V4(0, 0, 0, 0),
{
}

/// A text denotes an address exactly where it has four parts between dots and each of them is
/// a number that fits a byte; each byte of the address is then the number of its own part.
pub proof fn law_address_needs_four_numbers(text: Seq<char>)
    ensures
        quad_of(text) is Some <==> pieces(text, '.').len() == 4 && forall|i: int|
            0 <= i < 4 ==> byte_of(#[trigger] pieces(text, '.')[i], 10) is Some,
        quad_of(text) matches Some(address) ==> {
            let parts = pieces(text, '.');
            &&& byte_of(parts[0], 10) == Some(address.0)
            &&& byte_of(parts[1], 10) == Some(address.1)
            &&& byte_of(parts[2], 10) == Some(address.2)
            &&& byte_of(parts[3], 10) == Some(address.3)
        },
{
    let parts = pieces(text, '.');
    if parts.len() == 4 && forall|i: int|
        0 <= i < 4 ==> byte_of(#[trigger] pieces(text, '.')[i], 10) is Some {
        assert(byte_of(parts[0], 10) is Some && byte_of(parts[1], 10) is Some);
        assert(byte_of(parts[2], 10) is Some && byte_of(parts[3], 10) is Some);
    }
}

} // verus!
