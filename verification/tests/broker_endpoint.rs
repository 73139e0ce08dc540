use spb_web_server::broker::Broker;

#[test]
fn rejects_text_that_is_no_domain_and_no_address() {
    let r = Broker::new(String::from("not a domain!!"), 1883);
    assert_eq!(r.err(), Some(String::from("host parse error")));
    let r = Broker::new(String::from("not a domain!!"), 0);
    assert!(r.is_err());
}

#[test]
fn accepts_an_ipv4_literal_with_any_port() {
    for port in [0u16, 1, 1883, 65535] {
        let b = Broker::new(String::from("10.0.0.5"), port).unwrap();
        assert_eq!(b.host().as_str(), "10.0.0.5");
        assert_eq!(b.port(), port);
    }
}

#[test]
fn accepts_a_domain_and_omits_a_zero_port_in_display() {
    let b = Broker::new(String::from("example.com"), 0).unwrap();
    assert_eq!(b.display(), "example.com");
}

#[test]
fn displays_host_and_port_when_a_port_is_set() {
    let b = Broker::new(String::from("example.com"), 1883).unwrap();
    assert_eq!(b.display(), "example.com : 1883");
    let b = Broker::new(String::from("10.0.0.5"), 8080).unwrap();
    assert_eq!(b.display(), "10.0.0.5 : 8080");
}

#[test]
fn a_clone_is_the_same_endpoint() {
    let b = Broker::new(String::from("example.com"), 1883).unwrap();
    let c = b.clone();
    assert_eq!(c.host().as_str(), b.host().as_str());
    assert_eq!(c.port(), b.port());
}
