//! Names shared by the objects of a ruleset.

use vstd::prelude::*;
use crate::text::same_text;
use crate::token::Token;

verus! {

/// An address family, which decides which packets a table sees.
#[derive(Debug, Clone, Copy, PartialEq, Eq, Hash)]
pub enum NfFamily {
    /// IPv4.
    IP,
    /// IPv6.
    IP6,
    /// IPv4 and IPv6.
    INet,
    /// ARP.
    ARP,
    /// Packets that traverse a bridge.
    Bridge,
    /// Packets of one network device, before the network stack sees them.
    NetDev,
}

impl Token for NfFamily {
    open spec fn text(self) -> Seq<char> {
        match self {
            NfFamily::IP => "ip"@,
            NfFamily::IP6 => "ip6"@,
            NfFamily::INet => "inet"@,
            NfFamily::ARP => "arp"@,
            NfFamily::Bridge => "bridge"@,
            NfFamily::NetDev => "netdev"@,
        }
    }

    open spec fn from_text(s: Seq<char>) -> Option<Self> {
        if s == "ip"@ {
            Some(NfFamily::IP)
        } else if s == "ip6"@ {
            Some(NfFamily::IP6)
        } else if s == "inet"@ {
            Some(NfFamily::INet)
        } else if s == "arp"@ {
            Some(NfFamily::ARP)
        } else if s == "bridge"@ {
            Some(NfFamily::Bridge)
        } else if s == "netdev"@ {
            Some(NfFamily::NetDev)
        } else {
            None
        }
    }

    proof fn lemma_text(self) {
        reveal_strlit("ip");
        reveal_strlit("ip6");
        reveal_strlit("inet");
        reveal_strlit("arp");
        reveal_strlit("bridge");
        reveal_strlit("netdev");
        assert("ip"@.len() == 2);
        assert("ip6"@.len() == 3 && "ip6"@[0] == 'i');
        assert("inet"@.len() == 4);
        assert("arp"@.len() == 3 && "arp"@[0] == 'a');
        assert("bridge"@.len() == 6 && "bridge"@[0] == 'b');
        assert("netdev"@.len() == 6 && "netdev"@[0] == 'n');
    }

    proof fn lemma_from_text(s: Seq<char>) {
    }

    fn as_str(&self) -> (s: &'static str) {
        match self {
            NfFamily::IP => "ip",
            NfFamily::IP6 => "ip6",
            NfFamily::INet => "inet",
            NfFamily::ARP => "arp",
            NfFamily::Bridge => "bridge",
            NfFamily::NetDev => "netdev",
        }
    }

    fn parse(s: &str) -> (r: Option<Self>) {
        if same_text(s, "ip") {
            Some(NfFamily::IP)
        } else if same_text(s, "ip6") {
            Some(NfFamily::IP6)
        } else if same_text(s, "inet") {
            Some(NfFamily::INet)
        } else if same_text(s, "arp") {
            Some(NfFamily::ARP)
        } else if same_text(s, "bridge") {
            Some(NfFamily::Bridge)
        } else if same_text(s, "netdev") {
            Some(NfFamily::NetDev)
        } else {
            None
        }
    }
}

/// The type of a base chain.
#[derive(Debug, Clone, Copy, PartialEq, Eq, Hash)]
pub enum NfChainType {
    /// A chain that filters packets.
    Filter,
    /// A chain that reroutes packets whose header was changed.
    Route,
    /// A chain that translates addresses.
    NAT,
}

impl Token for NfChainType {
    open spec fn text(self) -> Seq<char> {
        match self {
            NfChainType::Filter => "filter"@,
            NfChainType::Route => "route"@,
            NfChainType::NAT => "nat"@,
        }
    }

    open spec fn from_text(s: Seq<char>) -> Option<Self> {
        if s == "filter"@ {
            Some(NfChainType::Filter)
        } else if s == "route"@ {
            Some(NfChainType::Route)
        } else if s == "nat"@ {
            Some(NfChainType::NAT)
        } else {
            None
        }
    }

    proof fn lemma_text(self) {
        reveal_strlit("filter");
        reveal_strlit("route");
        reveal_strlit("nat");
        assert("filter"@.len() == 6);
        assert("route"@.len() == 5);
        assert("nat"@.len() == 3);
    }

    proof fn lemma_from_text(s: Seq<char>) {
    }

    fn as_str(&self) -> (s: &'static str) {
        match self {
            NfChainType::Filter => "filter",
            NfChainType::Route => "route",
            NfChainType::NAT => "nat",
        }
    }

    fn parse(s: &str) -> (r: Option<Self>) {
        if same_text(s, "filter") {
            Some(NfChainType::Filter)
        } else if same_text(s, "route") {
            Some(NfChainType::Route)
        } else if same_text(s, "nat") {
            Some(NfChainType::NAT)
        } else {
            None
        }
    }
}

/// What a base chain does to packets that no rule decided on.
#[derive(Debug, Clone, Copy, PartialEq, Eq, Hash)]
pub enum NfChainPolicy {
    /// Accept the packet.
    Accept,
    /// Drop the packet.
    Drop,
}

impl Token for NfChainPolicy {
    open spec fn text(self) -> Seq<char> {
        match self {
            NfChainPolicy::Accept => "accept"@,
            NfChainPolicy::Drop => "drop"@,
        }
    }

    open spec fn from_text(s: Seq<char>) -> Option<Self> {
        if s == "accept"@ {
            Some(NfChainPolicy::Accept)
        } else if s == "drop"@ {
            Some(NfChainPolicy::Drop)
        } else {
            None
        }
    }

    proof fn lemma_text(self) {
        reveal_strlit("accept");
        reveal_strlit("drop");
        assert("accept"@.len() == 6);
        assert("drop"@.len() == 4);
    }

    proof fn lemma_from_text(s: Seq<char>) {
    }

    fn as_str(&self) -> (s: &'static str) {
        match self {
            NfChainPolicy::Accept => "accept",
            NfChainPolicy::Drop => "drop",
        }
    }

    fn parse(s: &str) -> (r: Option<Self>) {
        if same_text(s, "accept") {
            Some(NfChainPolicy::Accept)
        } else if same_text(s, "drop") {
            Some(NfChainPolicy::Drop)
        } else {
            None
        }
    }
}

/// The point of the network stack at which a base chain sees packets.
#[derive(Debug, Clone, Copy, PartialEq, Eq, Hash)]
pub enum NfHook {
    /// Before the network stack, on one device.
    Ingress,
    /// Before the routing decision.
    Prerouting,
    /// Packets that are routed through the host.
    Forward,
    /// Packets for the host itself.
    Input,
    /// Packets that the host sends.
    Output,
    /// After the routing decision.
    Postrouting,
    /// After the network stack, on one device.
    Egress,
}

impl Token for NfHook {
    open spec fn text(self) -> Seq<char> {
        match self {
            NfHook::Ingress => "ingress"@,
            NfHook::Prerouting => "prerouting"@,
            NfHook::Forward => "forward"@,
            NfHook::Input => "input"@,
            NfHook::Output => "output"@,
            NfHook::Postrouting => "postrouting"@,
            NfHook::Egress => "egress"@,
        }
    }

    open spec fn from_text(s: Seq<char>) -> Option<Self> {
        if s == "ingress"@ {
            Some(NfHook::Ingress)
        } else if s == "prerouting"@ {
            Some(NfHook::Prerouting)
        } else if s == "forward"@ {
            Some(NfHook::Forward)
        } else if s == "input"@ {
            Some(NfHook::Input)
        } else if s == "output"@ {
            Some(NfHook::Output)
        } else if s == "postrouting"@ {
            Some(NfHook::Postrouting)
        } else if s == "egress"@ {
            Some(NfHook::Egress)
        } else {
            None
        }
    }

    proof fn lemma_text(self) {
        reveal_strlit("ingress");
        reveal_strlit("prerouting");
        reveal_strlit("forward");
        reveal_strlit("input");
        reveal_strlit("output");
        reveal_strlit("postrouting");
        reveal_strlit("egress");
        assert("ingress"@.len() == 7 && "ingress"@[0] == 'i');
        assert("prerouting"@.len() == 10);
        assert("forward"@.len() == 7 && "forward"@[0] == 'f');
        assert("input"@.len() == 5);
        assert("output"@.len() == 6 && "output"@[0] == 'o');
        assert("postrouting"@.len() == 11);
        assert("egress"@.len() == 6 && "egress"@[0] == 'e');
    }

    proof fn lemma_from_text(s: Seq<char>) {
    }

    fn as_str(&self) -> (s: &'static str) {
        match self {
            NfHook::Ingress => "ingress",
            NfHook::Prerouting => "prerouting",
            NfHook::Forward => "forward",
            NfHook::Input => "input",
            NfHook::Output => "output",
            NfHook::Postrouting => "postrouting",
            NfHook::Egress => "egress",
        }
    }

    fn parse(s: &str) -> (r: Option<Self>) {
        if same_text(s, "ingress") {
            Some(NfHook::Ingress)
        } else if same_text(s, "prerouting") {
            Some(NfHook::Prerouting)
        } else if same_text(s, "forward") {
            Some(NfHook::Forward)
        } else if same_text(s, "input") {
            Some(NfHook::Input)
        } else if same_text(s, "output") {
            Some(NfHook::Output)
        } else if same_text(s, "postrouting") {
            Some(NfHook::Postrouting)
        } else if same_text(s, "egress") {
            Some(NfHook::Egress)
        } else {
            None
        }
    }
}

} // verus!
