//! `net.l4.filtered`: a transport layer whose endpoints a policy has to admit.
use vstd::prelude::*;

use crate::l4::{L4Error, L4Failure, SocketAddress};

verus! {

/// What an endpoint is used for.
#[derive(Clone, Copy, PartialEq, Eq, Structural, Debug)]
pub enum EndpointKind {
    Connect,
    Listen,
    BindUdp,
    SendTo,
}

/// A call of the transport layer.
#[derive(Clone, Copy, PartialEq, Eq, Structural, Debug)]
pub enum L4Call {
    Connect(SocketAddress),
    Listen(SocketAddress),
    BindUdp(SocketAddress),
    SendTo(SocketAddress),
    Accept,
    Send,
    Recv,
    RecvFrom,
    ListenerAddress,
    PeerAddress,
    UdpAddress,
}

/// What the policy is asked about a call: the endpoint that it names, if it names one.
pub open spec fn asked(call: L4Call) -> Option<(EndpointKind, SocketAddress)> {
    match call {
        L4Call::Connect(remote) => Some((EndpointKind::Connect, remote)),
        L4Call::Listen(local) => Some((EndpointKind::Listen, local)),
        L4Call::BindUdp(local) => Some((EndpointKind::BindUdp, local)),
        L4Call::SendTo(remote) => Some((EndpointKind::SendTo, remote)),
        _ => None,
    }
}

/// What the policy is asked about a call.
pub fn question(call: &L4Call) -> (question: Option<(EndpointKind, SocketAddress)>)
    ensures
        question == asked(*call),
{
    match call {
        L4Call::Connect(remote) => Some((EndpointKind::Connect, *remote)),
        L4Call::Listen(local) => Some((EndpointKind::Listen, *local)),
        L4Call::BindUdp(local) => Some((EndpointKind::BindUdp, *local)),
        L4Call::SendTo(remote) => Some((EndpointKind::SendTo, *remote)),
        _ => None,
    }
}

/// Whether a call goes on, given the policy's answer to the question about it.
pub open spec fn passes(call: L4Call, admitted: bool) -> bool {
    admitted || asked(call) is None
}

/// Decide about a call: it goes on as it is, unless the policy refused its endpoint.
/// `admitted` is the policy's answer to the question, where there is one.
pub fn gate(call: L4Call, admitted: bool) -> (forwarded: Result<L4Call, L4Error>)
    ensures
        match forwarded {
            Ok(same) => same == call && passes(call, admitted),
            Err(error) => !passes(call, admitted) && error@ == L4Failure::Denied,
        },
{
    if question(&call).is_some() && !admitted {
        return Err(L4Error::Denied);
    }
    Ok(call)
}

/// The policy is asked about every call that names an endpoint, for that endpoint and for
/// what it is used for, and about no other; and its answer decides exactly those.
pub proof fn law_endpoints_are_asked_about(call: L4Call, endpoint: SocketAddress, admitted: bool)
    ensures
        asked(call) == Some((EndpointKind::Connect, endpoint)) <==> call == L4Call::Connect(
            endpoint,
        ),
        asked(call) == Some((EndpointKind::Listen, endpoint)) <==> call == L4Call::Listen(endpoint),
        asked(call) == Some((EndpointKind::BindUdp, endpoint)) <==> call == L4Call::BindUdp(
            endpoint,
        ),
        asked(call) == Some((EndpointKind::SendTo, endpoint)) <==> call == L4Call::SendTo(endpoint),
        call is Connect || call is Listen || call is BindUdp || call is SendTo ==> passes(
            call,
            admitted,
        ) == admitted,
        call is Accept || call is Send || call is Recv || call is RecvFrom || call is ListenerAddress
            || call is PeerAddress || call is UdpAddress ==> passes(call, admitted),
{
}

} // verus!
