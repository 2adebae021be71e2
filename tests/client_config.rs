use openppp2_client::client_config::{ClientConfig, DefaultConfigItem};
use openppp2_client::decimal::{decimal_string, parse_u16};

#[test]
fn parse_host_and_port() {
    let item = DefaultConfigItem::parse("127.0.0.1:2777").unwrap();
    assert_eq!(item.name, "undefined");
    assert_eq!(item.ip, "127.0.0.1");
    assert_eq!(item.port, 2777);
    assert!(DefaultConfigItem::parse("asdf").is_none());
}

#[test]
fn parse_rejects_text_without_port() {
    assert!(DefaultConfigItem::parse("not-a-valid-string").is_none());
    assert!(DefaultConfigItem::parse("host:").is_none());
    assert!(DefaultConfigItem::parse("host:70000").is_none());
    assert!(DefaultConfigItem::parse("host:-1").is_none());
    assert!(DefaultConfigItem::parse("").is_none());
    assert!(DefaultConfigItem::parse("///").is_none());
}

#[test]
fn parse_trims_slashes() {
    let item = DefaultConfigItem::parse("/host:80/").unwrap();
    assert_eq!(item.name, "undefined");
    assert_eq!(item.ip, "host");
    assert_eq!(item.port, 80);
    assert!(DefaultConfigItem::parse("//a:1:2//").is_none());
    assert!(DefaultConfigItem::parse("h:1:2").is_none());
    let item = DefaultConfigItem::parse("//a:1//").unwrap();
    assert_eq!(item.ip, "a");
    assert_eq!(item.port, 1);
    let item = DefaultConfigItem::parse(":+65535").unwrap();
    assert_eq!(item.ip, "");
    assert_eq!(item.port, 65535);
}

#[test]
fn u16_text_round_trip() {
    for n in [0u16, 7, 10, 99, 100, 2777, 65535] {
        assert_eq!(decimal_string(n), n.to_string());
        assert_eq!(parse_u16(&n.to_string()), Some(n));
    }
    for s in ["", "+", "-1", "65536", " 1", "1a", "++1"] {
        assert_eq!(parse_u16(s), s.parse::<u16>().ok());
    }
    assert_eq!(parse_u16("+0042"), Some(42));
}

#[test]
fn item_label_and_example() {
    let example = DefaultConfigItem::default();
    assert_eq!(example, DefaultConfigItem::example());
    assert_eq!(example.to_label(), "example, 127.0.0.1:2777");
}

#[test]
fn builtin_settings() {
    let c = ClientConfig::builtin("/home/u/.config".to_string());
    assert_eq!(c.defaults, vec![DefaultConfigItem::example()]);
    assert_eq!(c.config_dirs, vec![".".to_string(), "/home/u/.config".to_string()]);
    assert_eq!(c.args.len(), 10);
    assert_eq!(c.args[0], "--mode=client");
    assert_eq!(c.args[9], "--tun-mux=4");
    assert_eq!(c.default_port_for_ssh, 80);
    assert!(!c.enable_chnroutes_by_default);
}
