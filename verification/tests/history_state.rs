use spb_web_server::broker::Broker;
use spb_web_server::history::StatusHistory;
use spb_web_server::state::{ingest_tick, DeviceState};
use spb_web_server::status::build_status;

fn drain(h: &StatusHistory) -> Vec<String> {
    let mut out = Vec::new();
    let mut i = 0;
    while i < h.len() {
        out.push(h.entry(i).clone());
        i += 1;
    }
    out
}

#[test]
fn history_keeps_everything_below_capacity() {
    let mut h = StatusHistory::new();
    for s in ["a", "b", "c"] {
        h.push(String::from(s));
    }
    assert_eq!(drain(&h), vec!["a", "b", "c"]);
}

#[test]
fn history_evicts_the_oldest_first() {
    let mut h = StatusHistory::new();
    for s in ["m1", "m2", "m3", "m4", "m5", "m6", "m7"] {
        h.push(String::from(s));
    }
    assert_eq!(h.len(), 5);
    assert_eq!(drain(&h), vec!["m3", "m4", "m5", "m6", "m7"]);
}

#[test]
fn a_hundred_distinct_pushes_leave_the_last_five_in_order() {
    let mut h = StatusHistory::new();
    let mut pushed = Vec::new();
    for i in 0..100 {
        let s = format!("status-{}", i);
        pushed.push(s.clone());
        h.push(s);
    }
    assert_eq!(h.len(), 5);
    let held = drain(&h);
    for s in &held {
        assert!(pushed.contains(s));
    }
    assert_eq!(held, vec!["status-95", "status-96", "status-97", "status-98", "status-99"]);
}

fn fresh_state() -> DeviceState {
    let broker = Broker::new(String::from("example.com"), 1883).unwrap();
    DeviceState::new(String::from("spb"), broker)
}

#[test]
fn replacing_the_device_name_is_wholesale() {
    let mut st = fresh_state();
    assert_eq!(st.current_device_name().as_str(), "spb");
    st.replace_device_name(String::from("rack-7"));
    assert_eq!(st.current_device_name().as_str(), "rack-7");
}

#[test]
fn replacing_the_broker_is_wholesale() {
    let mut st = fresh_state();
    let next = Broker::new(String::from("10.0.0.5"), 0).unwrap();
    st.replace_broker(next);
    assert_eq!(st.current_broker().host().as_str(), "10.0.0.5");
    assert_eq!(st.current_broker().port(), 0);
}

#[test]
fn power_status_text_brackets_each_snapshot() {
    let mut st = fresh_state();
    st.push_status(String::from("ok"));
    st.push_status(String::from("low"));
    assert_eq!(st.power_status_text(), " [ok] [low]");
}

#[test]
fn ingest_stores_a_decoded_message_and_a_new_name() {
    let mut st = fresh_state();
    ingest_tick(&mut st, Some(Vec::from("voltage 230".as_bytes())), None);
    ingest_tick(&mut st, None, Some(String::from("box-2")));
    assert_eq!(st.power_status_text(), " [voltage 230]");
    assert_eq!(st.current_device_name().as_str(), "box-2");
}

#[test]
fn ingest_drops_a_message_that_is_not_utf8() {
    let mut st = fresh_state();
    ingest_tick(&mut st, Some(vec![0xFF, 0xFE, 0x80]), None);
    assert_eq!(st.power_status_text(), "");
    // an empty poll changes nothing either
    ingest_tick(&mut st, None, None);
    assert_eq!(st.power_status_text(), "");
    assert_eq!(st.current_device_name().as_str(), "spb");
}

#[test]
fn status_report_assembles_every_field() {
    let mut st = fresh_state();
    st.push_status(String::from("up"));
    let config_ip = 0xC0A8_0001; // 192.168.0.1, the administrative endpoint
    let addrs = vec![(config_ip, 24u8), (0xC0A8_0105, 24u8)];
    let report = build_status(&st, &addrs, config_ip, Some(0xC0A8_0101));
    assert_eq!(report.host_name, "spb");
    assert_eq!(report.host_ip, "  192.168.1.5");
    assert_eq!(report.host_mask, "  255.255.255.0");
    assert_eq!(report.gateway_ip, "192.168.1.1");
    assert_eq!(report.broker, "example.com : 1883");
    assert_eq!(report.power_status, " [up]");
}

#[test]
fn status_report_blanks_what_the_lookups_did_not_give() {
    let st = fresh_state();
    let addrs: Vec<(u32, u8)> = Vec::new();
    let report = build_status(&st, &addrs, 0xC0A8_0001, None);
    assert_eq!(report.host_ip, "");
    assert_eq!(report.host_mask, "");
    assert_eq!(report.gateway_ip, "");
    assert_eq!(report.power_status, "");
    // an out-of-range prefix reported by the system shows as an empty entry
    let addrs = vec![(0xC0A8_0105u32, 40u8)];
    let report = build_status(&st, &addrs, 0xC0A8_0001, None);
    assert_eq!(report.host_ip, "  ");
    assert_eq!(report.host_mask, "  ");
}
