use wg_restarter::config::{trim_str, Config};
use wg_restarter::supervisor::StartupError;

#[test]
fn unit_name_embeds_interface() {
    let c = Config::new("wg0", 600, 60, 30).unwrap();
    assert_eq!(c.interface, "wg0");
    assert_eq!(c.unit_name, "wg-quick@wg0.service");
    assert_eq!(c.timeout_secs, 600);
    assert_eq!(c.poll_interval_secs, 60);
    assert_eq!(c.cooldown_secs, 30);
}

#[test]
fn interface_is_trimmed_before_use() {
    let c = Config::new("  wg0 \n", 600, 60, 30).unwrap();
    assert_eq!(c.interface, "wg0");
    assert_eq!(c.unit_name, "wg-quick@wg0.service");
}

#[test]
fn empty_interface_is_rejected() {
    assert!(matches!(
        Config::new("", 600, 60, 30),
        Err(StartupError::EmptyInterfaceName)
    ));
}

#[test]
fn blank_interface_is_rejected() {
    assert!(matches!(
        Config::new("   \t ", 600, 60, 30),
        Err(StartupError::EmptyInterfaceName)
    ));
}

#[test]
fn trim_removes_surrounding_whitespace_only() {
    assert_eq!(trim_str("  a b  "), "a b");
    assert_eq!(trim_str("\t\r\nx\u{a0}y\n"), "x\u{a0}y");
    assert_eq!(trim_str("   "), "");
    assert_eq!(trim_str(""), "");
}
