use crossbeam_channel::{bounded, Sender};
use spb_web_server::ipv4::parse_ipv4;
use spb_web_server::netchange::{
    validate_net_request, NetChange, NetCommand, NetEvent, NetSetting, SaveMsg,
};

#[test]
fn validation_accepts_a_member_gateway() {
    let r = validate_net_request("192.168.1.50", "255.255.255.0", "192.168.1.1");
    assert_eq!(
        r,
        Some(NetSetting {
            ip_addr: parse_ipv4("192.168.1.50").unwrap(),
            prefix: 24,
            gateway: parse_ipv4("192.168.1.1").unwrap(),
        })
    );
}

#[test]
fn validation_rejects_a_gateway_outside_the_network() {
    assert_eq!(validate_net_request("192.168.1.50", "255.255.255.0", "10.0.0.1"), None);
}

#[test]
fn validation_rejects_malformed_inputs() {
    assert_eq!(validate_net_request("192.168.1.", "255.255.255.0", "192.168.1.1"), None);
    assert_eq!(validate_net_request("192.168.1.50", "255.255.mask.0", "192.168.1.1"), None);
    assert_eq!(validate_net_request("192.168.1.50", "255.255.255.0", "gateway"), None);
    // a well-formed address that is no contiguous mask
    assert_eq!(validate_net_request("192.168.1.50", "255.0.255.0", "192.168.1.1"), None);
}

#[test]
fn validation_edge_prefixes() {
    // a zero mask makes every gateway a member
    let r = validate_net_request("192.168.1.50", "0.0.0.0", "10.0.0.1");
    assert_eq!(
        r,
        Some(NetSetting {
            ip_addr: parse_ipv4("192.168.1.50").unwrap(),
            prefix: 0,
            gateway: parse_ipv4("10.0.0.1").unwrap(),
        })
    );
    // a full mask admits only the address itself
    let r = validate_net_request("192.168.1.50", "255.255.255.255", "192.168.1.50");
    assert_eq!(
        r,
        Some(NetSetting {
            ip_addr: parse_ipv4("192.168.1.50").unwrap(),
            prefix: 32,
            gateway: parse_ipv4("192.168.1.50").unwrap(),
        })
    );
    assert_eq!(validate_net_request("192.168.1.50", "255.255.255.255", "192.168.1.51"), None);
}

/// A stand-in for the operating-system primitives that records every
/// invocation; setting the interface to its current address always
/// succeeds.
struct FakeOs {
    current: u32,
    set_calls: Vec<(u32, u32, u8)>,
    route_calls: Vec<u32>,
    set_works: bool,
    route_works: bool,
}

impl FakeOs {
    fn new(current: u32) -> FakeOs {
        FakeOs { current, set_calls: Vec::new(), route_calls: Vec::new(), set_works: true, route_works: true }
    }

    fn set_address(&mut self, old_ip: u32, new_ip: u32, prefix: u8) -> bool {
        self.set_calls.push((old_ip, new_ip, prefix));
        if new_ip == self.current {
            return true;
        }
        if self.set_works {
            self.current = new_ip;
        }
        self.set_works
    }

    fn replace_route(&mut self, gateway: u32) -> bool {
        self.route_calls.push(gateway);
        self.route_works
    }
}

/// Performs each command the machine asks for and reports the outcome
/// back, as the service does around a request.
fn drive(
    os: &mut FakeOs,
    machine: &mut NetChange,
    notify_s: &Sender<SaveMsg>,
    save_s: &Sender<SaveMsg>,
) -> bool {
    loop {
        match machine.current_command() {
            NetCommand::Notify(setting) => {
                let _ = notify_s.send(SaveMsg::Net(setting));
                // the fixed grace period would pass here
                machine.advance(NetEvent::NotifyDone);
            }
            NetCommand::SetAddress { old_ip, new_ip, prefix } => {
                let ok = os.set_address(old_ip, new_ip, prefix);
                machine.advance(if ok { NetEvent::SetAddressOk } else { NetEvent::SetAddressFailed });
            }
            NetCommand::ReplaceRoute { gateway } => {
                let ok = os.replace_route(gateway);
                machine.advance(if ok { NetEvent::RouteOk } else { NetEvent::RouteFailed });
            }
            NetCommand::Persist(setting) => {
                let _ = save_s.send(SaveMsg::Net(setting));
                machine.advance(NetEvent::PersistDone);
            }
            NetCommand::Respond { accepted } => return accepted,
        }
    }
}

const CONFIG_IP: u32 = 0xC0A8_0001;

#[test]
fn an_accepted_change_walks_the_whole_sequence_once() {
    let (notify_s, notify_r) = bounded(8);
    let (save_s, save_r) = bounded(8);
    let mut os = FakeOs::new(CONFIG_IP);
    let mut machine =
        NetChange::start("192.168.1.50", "255.255.255.0", "192.168.1.1", CONFIG_IP).unwrap();
    let accepted = drive(&mut os, &mut machine, &notify_s, &save_s);
    assert!(accepted);
    let new_ip = parse_ipv4("192.168.1.50").unwrap();
    let gateway = parse_ipv4("192.168.1.1").unwrap();
    assert_eq!(os.set_calls, vec![(CONFIG_IP, new_ip, 24)]);
    assert_eq!(os.route_calls, vec![gateway]);
    let expected = NetSetting { ip_addr: new_ip, prefix: 24, gateway };
    match notify_r.try_recv().unwrap() {
        SaveMsg::Net(setting) => assert_eq!(setting, expected),
        _ => panic!("the notification must wrap the validated setting"),
    }
    match save_r.try_recv().unwrap() {
        SaveMsg::Net(setting) => assert_eq!(setting, expected),
        _ => panic!("the persistence request must be tagged as a network setting"),
    }
    assert!(save_r.try_recv().is_err());
}

#[test]
fn a_foreign_gateway_is_rejected_before_any_system_call() {
    let machine = NetChange::start("192.168.1.50", "255.255.255.0", "10.0.0.1", CONFIG_IP);
    assert!(machine.is_none());
    // nothing was created, so nothing could have touched the system:
    // the recording collaborator would have stayed empty
    let os = FakeOs::new(CONFIG_IP);
    assert!(os.set_calls.is_empty());
    assert!(os.route_calls.is_empty());
}

#[test]
fn reapplying_the_same_accepted_setting_succeeds_again() {
    let (notify_s, _notify_r) = bounded(8);
    let (save_s, _save_r) = bounded(8);
    let mut os = FakeOs::new(CONFIG_IP);
    for _ in 0..2 {
        let mut machine =
            NetChange::start("192.168.1.50", "255.255.255.0", "192.168.1.1", CONFIG_IP).unwrap();
        let accepted = drive(&mut os, &mut machine, &notify_s, &save_s);
        assert!(accepted);
    }
    let new_ip = parse_ipv4("192.168.1.50").unwrap();
    // both applications passed the unchanged configuration address
    assert_eq!(os.set_calls, vec![(CONFIG_IP, new_ip, 24), (CONFIG_IP, new_ip, 24)]);
    assert_eq!(os.route_calls.len(), 2);
}

#[test]
fn a_failed_address_change_rejects_without_touching_the_route() {
    let (notify_s, _notify_r) = bounded(8);
    let (save_s, save_r) = bounded(8);
    let mut os = FakeOs::new(CONFIG_IP);
    os.set_works = false;
    let mut machine =
        NetChange::start("192.168.1.50", "255.255.255.0", "192.168.1.1", CONFIG_IP).unwrap();
    let accepted = drive(&mut os, &mut machine, &notify_s, &save_s);
    assert!(!accepted);
    assert_eq!(os.set_calls.len(), 1);
    assert!(os.route_calls.is_empty());
    assert!(save_r.try_recv().is_err());
}

#[test]
fn a_failed_route_update_rejects_and_nothing_is_persisted() {
    let (notify_s, _notify_r) = bounded(8);
    let (save_s, save_r) = bounded(8);
    let mut os = FakeOs::new(CONFIG_IP);
    os.route_works = false;
    let mut machine =
        NetChange::start("192.168.1.50", "255.255.255.0", "192.168.1.1", CONFIG_IP).unwrap();
    let accepted = drive(&mut os, &mut machine, &notify_s, &save_s);
    assert!(!accepted);
    // the address was already applied when the route update failed;
    // the sequence does not roll it back
    assert_eq!(os.set_calls.len(), 1);
    assert_eq!(os.route_calls.len(), 1);
    assert!(save_r.try_recv().is_err());
}

#[test]
fn an_event_out_of_order_changes_nothing() {
    let mut machine =
        NetChange::start("192.168.1.50", "255.255.255.0", "192.168.1.1", CONFIG_IP).unwrap();
    let before = machine.current_command();
    machine.advance(NetEvent::RouteOk);
    machine.advance(NetEvent::PersistDone);
    assert_eq!(machine.current_command(), before);
}
