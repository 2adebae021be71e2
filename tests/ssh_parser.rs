use openppp2_client::client_config::DefaultConfigItem;
use openppp2_client::ssh_parser::{is_whitespace_char, parse_ssh_config, split_words};

fn item(name: &str, ip: &str, port: u16) -> DefaultConfigItem {
    DefaultConfigItem { name: name.to_string(), ip: ip.to_string(), port }
}

#[test]
fn test_get_config_items_from_ssh_config() {
    let content = r#"Host ali
  User root
  HostName 47.76.185.33
Host axw
  User itdep
  HostName 172.18.58.54
Host github
  Port 443
  User git
  HostName ssh.github.com
"#;
    let items = parse_ssh_config(content, 80);
    assert_eq!(items.len(), 3);
    assert_eq!(items[0], item("ali", "47.76.185.33", 80));
    assert_eq!(items[1], item("axw", "172.18.58.54", 80));
    assert_eq!(items[2], item("github", "ssh.github.com", 80));
}

#[test]
fn host_blocks_in_order() {
    let content = "Host a\nHostName 1.1.1.1\nHost b\nHostName 2.2.2.2\nHost c\nHostName 3.3.3.3";
    let items = parse_ssh_config(content, 22);
    assert_eq!(
        items,
        vec![item("a", "1.1.1.1", 22), item("b", "2.2.2.2", 22), item("c", "3.3.3.3", 22)]
    );
}

#[test]
fn host_name_before_any_host_is_undefined() {
    let content = "HostName 9.9.9.9\n\tHostName   example.org  \nHost x\nHostName 1.2.3.4\n";
    let items = parse_ssh_config(content, 80);
    assert_eq!(
        items,
        vec![
            item("undefined", "9.9.9.9", 80),
            item("undefined", "example.org", 80),
            item("x", "1.2.3.4", 80),
        ]
    );
}

#[test]
fn short_lines_and_other_directives_are_skipped() {
    let content = "Host\nHostName\n\n   \nPort 443\nHost y\r\nHostName h.example\r\n";
    let items = parse_ssh_config(content, 7);
    assert_eq!(items, vec![item("y", "h.example", 7)]);
}

#[test]
fn empty_config_gives_nothing() {
    assert!(parse_ssh_config("", 80).is_empty());
}

#[test]
fn words_split_on_unicode_whitespace() {
    let words = split_words("  a\u{3000}b\tc  ");
    assert_eq!(words, vec!["a".to_string(), "b".to_string(), "c".to_string()]);
    assert!(split_words("   ").is_empty());
    for c in ['\u{85}', '\u{a0}', '\u{2009}', ' ', '\n'] {
        assert_eq!(is_whitespace_char(c), c.is_whitespace());
    }
    assert!(!is_whitespace_char('x'));
}
