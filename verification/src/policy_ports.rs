//! `net.policy-ports`: a policy that admits endpoints by their port.
use vstd::prelude::*;

use crate::l4::SocketAddress;
use crate::l4_filtered::{asked, passes, EndpointKind, L4Call};

verus! {

/// The ports that are admitted; none before the policy is configured.
#[derive(Debug)]
pub struct Ports {
    pub allow: Option<Vec<u16>>,
}

impl View for Ports {
    type V = Option<Seq<u16>>;

    open spec fn view(&self) -> Option<Seq<u16>> {
        match self.allow {
            Some(allow) => Some(allow@),
            None => None,
        }
    }
}

/// Whether a policy admits a port.
pub open spec fn admits(allow: Option<Seq<u16>>, port: u16) -> bool {
    allow matches Some(ports) && ports.contains(port)
}

impl Ports {
    /// The policy before it is configured.
    pub fn unconfigured() -> (policy: Ports)
        ensures
            policy@ is None,
    {
        Ports { allow: None }
    }

    /// Admit the given ports from now on, and no others.
    pub fn configure(&mut self, allow: Vec<u16>)
        ensures
            final(self)@ == Some(allow@),
    {
        self.allow = Some(allow);
    }

    /// Whether an endpoint is admitted: its port decides, whatever it is used for.
    pub fn decide(&self, _kind: EndpointKind, endpoint: &SocketAddress) -> (yes: bool)
        ensures
            yes == admits(self@, endpoint.port),
    {
        let ports = match &self.allow {
            Some(ports) => ports,
            None => {
                return false;
            },
        };
        let mut at: usize = 0;
        while at < ports.len()
            invariant
                at <= ports.len(),
                self@ == Some(ports@),
                forall|i: int| 0 <= i < at ==> ports@[i] != endpoint.port,
            decreases ports.len() - at,
        {
            if ports[at] == endpoint.port {
                return true;
            }
            at += 1;
        }
        false
    }
}

/// An unconfigured policy admits nothing, and a configured one nothing but its ports.
pub proof fn law_admits_only_listed(allow: Option<Seq<u16>>, port: u16)
    ensures
        allow is None ==> !admits(allow, port),
        admits(allow, port) ==> allow->0.contains(port),
{
}

/// Through a filter with this policy a call reaches no endpoint but one with a listed port,
/// whatever the endpoint is used for; and a call that names no endpoint goes on.
pub proof fn law_filter_reaches_only_listed(
    allow: Option<Seq<u16>>,
    call: L4Call,
    endpoint: SocketAddress,
)
    ensures
        asked(call) matches Some((_, named)) && named == endpoint ==> (passes(
            call,
            admits(allow, endpoint.port),
        ) <==> allow is Some && allow->0.contains(endpoint.port)),
        asked(call) is None ==> passes(call, admits(allow, endpoint.port)),
{
}

/// A configured policy admits every port that it lists.
pub proof fn law_admits_every_listed(ports: Seq<u16>, place: int)
    requires
        0 <= place < ports.len(),
    ensures
        admits(Some(ports), ports[place]),
{
}

} // verus!
