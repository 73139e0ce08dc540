//! The network-reconfiguration orchestration: validating a requested
//! address change and walking the fixed sequence notify, apply, route,
//! persist, answer. The surrounding service performs each step's outside
//! work and reports the outcome back as an event.

use crate::broker::Broker;
use crate::ipv4::{
    lemma_prefix_mask_injective, mask_to_prefix, net_contains, network_contains, parse_ipv4,
    prefix_mask, text_ipv4,
};
use vstd::prelude::*;

verus! {

/// A validated network setting: address, prefix length and a gateway
/// inside the network the first two define.
#[derive(Clone, Copy, Debug, PartialEq, Eq, Structural)]
pub struct NetSetting {
    pub ip_addr: u32,
    pub prefix: u8,
    pub gateway: u32,
}

impl NetSetting {
    pub fn new(ip_addr: u32, prefix: u8, gateway: u32) -> (s: NetSetting)
        ensures
            s == (NetSetting { ip_addr, prefix, gateway }),
    {
        NetSetting { ip_addr, prefix, gateway }
    }
}

/// A value that must be durably persisted, handed to the external
/// configuration writer; produced here, never interpreted.
#[derive(Clone, Debug)]
pub enum SaveMsg {
    DeviceName(String),
    Net(NetSetting),
    Broker(Broker),
}

/// The prefix length a mask value stands for, where it is contiguous.
pub open spec fn mask_prefix(m: u32) -> Option<u32> {
    if exists|p: u32| p <= 32 && prefix_mask(p) == m {
        Some(choose|p: u32| p <= 32 && prefix_mask(p) == m)
    } else {
        None
    }
}

/// What validation makes of the three request texts: the parsed setting
/// when the texts spell addresses, the mask is contiguous and the
/// gateway lies inside the requested network; nothing otherwise.
pub open spec fn spec_validate(ip: Seq<char>, mask: Seq<char>, gw: Seq<char>) -> Option<
    NetSetting,
> {
    match (text_ipv4(ip), text_ipv4(mask), text_ipv4(gw)) {
        (Some(ipv), Some(mv), Some(gv)) => match mask_prefix(mv) {
            Some(p) => if net_contains(ipv, p, gv) {
                Some(NetSetting { ip_addr: ipv, prefix: p as u8, gateway: gv })
            } else {
                None
            },
            None => None,
        },
        _ => None,
    }
}

/// Step 1 and 2 of the reconfiguration sequence: parse the mask into a
/// prefix length, parse the two addresses, and verify the gateway is a
/// member of the requested network. A request that fails any of these is
/// rejected before anything else happens.
pub fn validate_net_request(ip: &str, mask: &str, gateway: &str) -> (r: Option<NetSetting>)
    ensures
        r == spec_validate(ip@, mask@, gateway@),
{
    let mv = match parse_ipv4(mask) {
        Some(m) => m,
        None => {
            return None;
        },
    };
    let p = match mask_to_prefix(mv) {
        Some(p) => p,
        None => {
            proof {
                assert(mask_prefix(mv) is None);
            }
            return None;
        },
    };
    proof {
        assert(p as u32 <= 32 && prefix_mask(p as u32) == mv);
        let q = choose|q: u32| q <= 32 && prefix_mask(q) == mv;
        lemma_prefix_mask_injective(p as u32, q);
        assert(mask_prefix(mv) == Some(p as u32));
    }
    let ipv = match parse_ipv4(ip) {
        Some(v) => v,
        None => {
            return None;
        },
    };
    let gv = match parse_ipv4(gateway) {
        Some(v) => v,
        None => {
            return None;
        },
    };
    if network_contains(ipv, p, gv) {
        Some(NetSetting::new(ipv, p, gv))
    } else {
        None
    }
}

/// Validation gate: a request passes exactly when all three texts spell
/// addresses, the mask is a contiguous prefix mask, and the gateway is a
/// member of the network the address and prefix define; and the accepted
/// setting is precisely what the texts spell.
pub proof fn lemma_validation_gate(ip: Seq<char>, mask: Seq<char>, gw: Seq<char>)
    ensures
        spec_validate(ip, mask, gw) matches Some(ns) ==> {
            &&& text_ipv4(ip) == Some(ns.ip_addr)
            &&& text_ipv4(mask) == Some(prefix_mask(ns.prefix as u32))
            &&& text_ipv4(gw) == Some(ns.gateway)
            &&& ns.prefix <= 32
            &&& net_contains(ns.ip_addr, ns.prefix as u32, ns.gateway)
        },
        forall|ipv: u32, p: u32, gv: u32|
            (text_ipv4(ip) == Some(ipv) && text_ipv4(mask) == Some(prefix_mask(p)) && p <= 32
                && text_ipv4(gw) == Some(gv) && #[trigger] net_contains(ipv, p, gv))
                ==> spec_validate(ip, mask, gw) == Some(
                NetSetting { ip_addr: ipv, prefix: p as u8, gateway: gv },
            ),
        spec_validate(ip, mask, gw) is None <==> !(exists|ipv: u32, p: u32, gv: u32|
            text_ipv4(ip) == Some(ipv) && text_ipv4(mask) == Some(prefix_mask(p)) && p <= 32
                && text_ipv4(gw) == Some(gv) && #[trigger] net_contains(ipv, p, gv)),
{
    if spec_validate(ip, mask, gw) is Some {
        let ns = spec_validate(ip, mask, gw)->Some_0;
        let mv = text_ipv4(mask)->Some_0;
        let p = choose|p: u32| p <= 32 && prefix_mask(p) == mv;
        assert(text_ipv4(mask) == Some(prefix_mask(ns.prefix as u32)));
    }
    assert forall|ipv: u32, p: u32, gv: u32|
        (text_ipv4(ip) == Some(ipv) && text_ipv4(mask) == Some(prefix_mask(p)) && p <= 32
            && text_ipv4(gw) == Some(gv) && #[trigger] net_contains(ipv, p, gv)) implies spec_validate(
        ip,
        mask,
        gw,
    ) == Some(NetSetting { ip_addr: ipv, prefix: p as u8, gateway: gv }) by {
        let mv = prefix_mask(p);
        assert(p <= 32 && prefix_mask(p) == mv);
        let q = choose|q: u32| q <= 32 && prefix_mask(q) == mv;
        lemma_prefix_mask_injective(p, q);
        assert(mask_prefix(mv) == Some(p));
    }
}

/// Where the reconfiguration stands.
#[derive(Clone, Copy, Debug, PartialEq, Eq, Structural)]
pub enum NetPhase {
    /// Announcing the impending change, then waiting the grace period.
    Notifying,
    /// Setting the interface address.
    Applying,
    /// Replacing the default route.
    Routing,
    /// Enqueueing the persistence request.
    Persisting,
    /// Answering the request.
    Done { accepted: bool },
}

/// The outside work the current phase asks for.
#[derive(Clone, Copy, Debug, PartialEq, Eq, Structural)]
pub enum NetCommand {
    /// Send the pre-change notification, then wait the fixed grace
    /// period; a failure to enqueue it is logged only.
    Notify(NetSetting),
    /// Replace the binding at the configuration address with the new
    /// address and prefix.
    SetAddress { old_ip: u32, new_ip: u32, prefix: u8 },
    /// Replace the default route with the new gateway.
    ReplaceRoute { gateway: u32 },
    /// Enqueue the accepted setting for persistence; a failure to
    /// enqueue it is logged only.
    Persist(NetSetting),
    /// Answer the request, echoing the payload: success or rejection.
    Respond { accepted: bool },
}

/// What the surrounding service reports back after performing a command.
#[derive(Clone, Copy, Debug, PartialEq, Eq, Structural)]
pub enum NetEvent {
    /// The notification was sent (or its failure logged) and the grace
    /// period has passed.
    NotifyDone,
    SetAddressOk,
    SetAddressFailed,
    RouteOk,
    RouteFailed,
    /// The persistence request was enqueued (or its failure logged).
    PersistDone,
}

/// How a phase answers an event: the sequence is strict, a failed
/// address or route step rejects at once, and an event that does not
/// belong to the current phase changes nothing.
pub open spec fn step_phase(phase: NetPhase, ev: NetEvent) -> NetPhase {
    match (phase, ev) {
        (NetPhase::Notifying, NetEvent::NotifyDone) => NetPhase::Applying,
        (NetPhase::Applying, NetEvent::SetAddressOk) => NetPhase::Routing,
        (NetPhase::Applying, NetEvent::SetAddressFailed) => NetPhase::Done { accepted: false },
        (NetPhase::Routing, NetEvent::RouteOk) => NetPhase::Persisting,
        (NetPhase::Routing, NetEvent::RouteFailed) => NetPhase::Done { accepted: false },
        (NetPhase::Persisting, NetEvent::PersistDone) => NetPhase::Done { accepted: true },
        _ => phase,
    }
}

/// Strict ordering of the orchestration: each phase is entered only from
/// its predecessor on the matching outcome, acceptance only through the
/// whole sequence, rejection only from a failed address or route step,
/// and an answered request never moves again.
pub proof fn lemma_phase_order(phase: NetPhase, ev: NetEvent)
    ensures
        step_phase(phase, ev) == NetPhase::Applying && phase != NetPhase::Applying ==> phase
            == NetPhase::Notifying && ev == NetEvent::NotifyDone,
        step_phase(phase, ev) == NetPhase::Routing && phase != NetPhase::Routing ==> phase
            == NetPhase::Applying && ev == NetEvent::SetAddressOk,
        step_phase(phase, ev) == NetPhase::Persisting && phase != NetPhase::Persisting ==> phase
            == NetPhase::Routing && ev == NetEvent::RouteOk,
        step_phase(phase, ev) == (NetPhase::Done { accepted: true }) && phase != (NetPhase::Done {
            accepted: true,
        }) ==> phase == NetPhase::Persisting && ev == NetEvent::PersistDone,
        step_phase(phase, ev) == (NetPhase::Done { accepted: false }) && phase != (NetPhase::Done {
            accepted: false,
        }) ==> (phase == NetPhase::Applying && ev == NetEvent::SetAddressFailed) || (phase
            == NetPhase::Routing && ev == NetEvent::RouteFailed),
        phase matches NetPhase::Done { .. } ==> step_phase(phase, ev) == phase,
{
}

/// One network-change request being orchestrated: the validated setting,
/// the configuration endpoint's fixed address, and the phase reached.
pub struct NetChange {
    setting: NetSetting,
    config_ip: u32,
    phase: NetPhase,
}

impl NetChange {
    pub closed spec fn setting_spec(&self) -> NetSetting {
        self.setting
    }

    pub closed spec fn config_ip_spec(&self) -> u32 {
        self.config_ip
    }

    pub closed spec fn phase_spec(&self) -> NetPhase {
        self.phase
    }

    /// A machine only ever holds a setting that passed validation.
    pub open spec fn wf(&self) -> bool {
        &&& self.setting_spec().prefix <= 32
        &&& net_contains(
            self.setting_spec().ip_addr,
            self.setting_spec().prefix as u32,
            self.setting_spec().gateway,
        )
    }

    /// Starts a reconfiguration: validates the request texts and, when
    /// they pass, stands ready to notify. A request that fails
    /// validation gets no machine, so nothing beyond validation ever
    /// happens for it.
    pub fn start(ip: &str, mask: &str, gateway: &str, config_ip: u32) -> (r: Option<NetChange>)
        ensures
            match r {
                Some(m) => {
                    &&& spec_validate(ip@, mask@, gateway@) == Some(m.setting_spec())
                    &&& m.config_ip_spec() == config_ip
                    &&& m.phase_spec() == NetPhase::Notifying
                    &&& m.wf()
                },
                None => spec_validate(ip@, mask@, gateway@) is None,
            },
    {
        match validate_net_request(ip, mask, gateway) {
            Some(setting) => {
                proof {
                    lemma_validation_gate(ip@, mask@, gateway@);
                }
                Some(NetChange { setting, config_ip, phase: NetPhase::Notifying })
            },
            None => None,
        }
    }

    /// The outside work the current phase asks for.
    pub fn current_command(&self) -> (c: NetCommand)
        ensures
            c == command_of(self.setting_spec(), self.config_ip_spec(), self.phase_spec()),
    {
        match self.phase {
            NetPhase::Notifying => NetCommand::Notify(self.setting),
            NetPhase::Applying => NetCommand::SetAddress {
                old_ip: self.config_ip,
                new_ip: self.setting.ip_addr,
                prefix: self.setting.prefix,
            },
            NetPhase::Routing => NetCommand::ReplaceRoute { gateway: self.setting.gateway },
            NetPhase::Persisting => NetCommand::Persist(self.setting),
            NetPhase::Done { accepted } => NetCommand::Respond { accepted },
        }
    }

    /// Takes the outcome of the last command; the setting and the
    /// configuration address never change underway.
    pub fn advance(&mut self, ev: NetEvent)
        requires
            old(self).wf(),
        ensures
            final(self).wf(),
            final(self).setting_spec() == old(self).setting_spec(),
            final(self).config_ip_spec() == old(self).config_ip_spec(),
            final(self).phase_spec() == step_phase(old(self).phase_spec(), ev),
    {
        let next = match (self.phase, ev) {
            (NetPhase::Notifying, NetEvent::NotifyDone) => NetPhase::Applying,
            (NetPhase::Applying, NetEvent::SetAddressOk) => NetPhase::Routing,
            (NetPhase::Applying, NetEvent::SetAddressFailed) => NetPhase::Done { accepted: false },
            (NetPhase::Routing, NetEvent::RouteOk) => NetPhase::Persisting,
            (NetPhase::Routing, NetEvent::RouteFailed) => NetPhase::Done { accepted: false },
            (NetPhase::Persisting, NetEvent::PersistDone) => NetPhase::Done { accepted: true },
            (phase, _) => phase,
        };
        self.phase = next;
    }
}

/// The command each phase stands for, as `current_command` answers it.
pub open spec fn command_of(setting: NetSetting, config_ip: u32, phase: NetPhase) -> NetCommand {
    match phase {
        NetPhase::Notifying => NetCommand::Notify(setting),
        NetPhase::Applying => NetCommand::SetAddress {
            old_ip: config_ip,
            new_ip: setting.ip_addr,
            prefix: setting.prefix,
        },
        NetPhase::Routing => NetCommand::ReplaceRoute { gateway: setting.gateway },
        NetPhase::Persisting => NetCommand::Persist(setting),
        NetPhase::Done { accepted } => NetCommand::Respond { accepted },
    }
}

} // verus!
