use multi_tcp_client::endpoint::Endpoint;
use multi_tcp_client::validator::{banner, usage};

#[test]
fn banner_carries_the_version() {
    let b = banner("0.5.0");
    assert!(b.contains("(validator - version 0.5.0)"));
    assert!(b.starts_with("\n\n"));
    assert!(b.ends_with(")\n\n    "));
}

#[test]
fn banner_exact_text() {
    let expected = "\n\n      _ __  _   _ _ __ ___\n     | '_ \\| | | | '_ \\ _ \\\n     | | | | |_| | | | | | |\n     |_| |_|\\__, |_| |_| |_|\n            |___/\n\n             (validator - version 1.2.3)\n\n    ";
    assert_eq!(banner("1.2.3"), expected);
}

#[test]
fn usage_appends_the_help_pointer() {
    let u = usage("0.5.0");
    assert!(u.starts_with(banner("0.5.0").as_str()));
    assert!(u.ends_with("usage: --help to see available options.\n\n"));
}

#[test]
fn endpoint_keys_separate_hosts_and_ports() {
    let a = Endpoint::new(1, 2);
    let b = Endpoint::new(1, 3);
    let c = Endpoint::new(2, 2);
    assert_eq!(a.key(), 0x10002);
    assert_ne!(a.key(), b.key());
    assert_ne!(a.key(), c.key());
    assert_ne!(b.key(), c.key());
}
