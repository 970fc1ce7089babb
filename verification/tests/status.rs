use wg_waybar::error::Error;
use wg_waybar::status::{
    live_status, recorded_status, status, write_state_record, PersistedState, Probe, Status,
    StatusOutput,
};

fn state(entries: &[(&str, &str)]) -> PersistedState {
    PersistedState {
        error: Some(entries.iter().map(|(k, v)| (k.to_string(), v.to_string())).collect()),
    }
}

fn line(text: &str, status: Status, tooltip: &str) -> StatusOutput {
    StatusOutput { text: text.to_string(), status, tooltip: tooltip.to_string() }
}

#[test]
fn status_has_a_label_and_a_level() {
    assert_eq!(Status::Connected.as_str(), "connected");
    assert_eq!(Status::Disconnected.as_str(), "disconnected");
    assert_eq!(Status::Error.as_str(), "error");
    assert_eq!(Status::Connected.percentage(), 0);
    assert_eq!(Status::Disconnected.percentage(), 50);
    assert_eq!(Status::Error.percentage(), 100);
}

#[test]
fn status_line_is_a_json_object() {
    assert_eq!(
        line("VPN: wg0", Status::Connected, "VPN is connected").to_json(),
        "{\"class\":\"connected\",\"percentage\":0,\"text\":\"VPN: wg0\",\"tooltip\":\"VPN is connected\"}"
    );
    assert_eq!(
        line("a\"b", Status::Error, "line\nbreak").to_json(),
        "{\"class\":\"error\",\"percentage\":100,\"text\":\"a\\\"b\",\"tooltip\":\"line\\nbreak\"}"
    );
    let parsed: serde_json::Value =
        serde_json::from_str(&line("t", Status::Disconnected, "tip").to_json()).unwrap();
    assert_eq!(parsed["text"], "t");
    assert_eq!(parsed["class"], "disconnected");
    assert_eq!(parsed["tooltip"], "tip");
    assert_eq!(parsed["percentage"], 50);
    assert_eq!(parsed.as_object().unwrap().len(), 4);
}

#[test]
fn recorded_failure_and_live_interface_are_both_reported() {
    let lines = status("wg0", &state(&[("wg0", "boom")]), &Probe::Up);
    assert_eq!(
        lines,
        vec![
            line("VPN: Error", Status::Error, "Toggle failed: boom"),
            line("VPN: wg0", Status::Connected, "VPN is connected"),
        ]
    );
    assert_eq!(
        lines[0].to_json(),
        "{\"class\":\"error\",\"percentage\":100,\"text\":\"VPN: Error\",\"tooltip\":\"Toggle failed: boom\"}"
    );
}

#[test]
fn without_a_record_only_the_live_state_is_reported() {
    assert_eq!(
        status("wg0", &PersistedState { error: None }, &Probe::Down),
        vec![line("VPN: wg0", Status::Disconnected, "VPN is disconnected")]
    );
    assert_eq!(
        status("wg0", &state(&[]), &Probe::Up),
        vec![line("VPN: wg0", Status::Connected, "VPN is connected")]
    );
    assert_eq!(
        status("wg0", &state(&[("wg1", "boom"), ("WG0", "bang")]), &Probe::Up),
        vec![line("VPN: wg0", Status::Connected, "VPN is connected")]
    );
}

#[test]
fn unavailable_manager_is_an_error_line() {
    assert_eq!(
        live_status("wg0", &Probe::Unavailable("no netlink".to_string())),
        line(
            "VPN: Error",
            Status::Error,
            "Failed to check VPN status: WireGuard API error: no netlink"
        )
    );
    assert_eq!(
        status("wg0", &state(&[("wg0", "boom")]), &Probe::Unavailable("x".to_string())).len(),
        2
    );
}

#[test]
fn every_record_of_the_interface_is_reported_in_order() {
    assert_eq!(
        recorded_status("wg0", &state(&[("wg0", "one"), ("wg1", "two"), ("wg0", "three")])),
        vec![
            line("VPN: Error", Status::Error, "Toggle failed: one"),
            line("VPN: Error", Status::Error, "Toggle failed: three"),
        ]
    );
    assert_eq!(recorded_status("wg0", &PersistedState { error: None }), vec![]);
}

#[test]
fn state_record_is_empty_after_success() {
    assert_eq!(write_state_record("wg0", &Ok(())), Ok("{}".to_string()));
}

#[test]
fn state_record_names_the_interface_after_failure() {
    assert_eq!(
        write_state_record("wg0", &Err(Error::WireGuardApi("boom".to_string()))),
        Ok("{\"error\":{\"wg0\":\"WireGuard API error: boom\"}}".to_string())
    );
    assert_eq!(
        write_state_record("w\"g", &Err(Error::IO("a\\b".to_string()))),
        Ok("{\"error\":{\"w\\\"g\":\"I/O error: a\\\\b\"}}".to_string())
    );
}

#[test]
fn state_that_names_each_interface_once_gives_at_most_one_record() {
    let names = ["wg0", "wg1", "wg2"];
    let recorded = state(&[("wg0", "zero"), ("wg1", "one"), ("wg2", "two")]);
    for name in names {
        assert_eq!(recorded_status(name, &recorded).len(), 1);
        assert_eq!(status(name, &recorded, &Probe::Down).len(), 2);
    }
    assert_eq!(recorded_status("wg3", &recorded).len(), 0);
    assert_eq!(
        recorded_status("wg1", &recorded),
        vec![line("VPN: Error", Status::Error, "Toggle failed: one")]
    );
}
