//! The proxy's run configuration, derived from a host and a port.
use vstd::prelude::*;

use crate::decimal::{decimal, decimal_string};

verus! {

/// The base run configuration of the proxy. `client.server` and
/// `udp.static.servers` are replaced for each launch; every other field is
/// kept as it stands.
pub const APPSETTINGS_TEMPLATE: &'static str = r#"{
    "concurrent": 1,
    "cdn": [80, 443],
    "key": {
        "kf": 154543927,
        "kx": 128,
        "kl": 10,
        "kh": 12,
        "protocol": "aes-128-cfb",
        "protocol-key": "ppp",
        "transport": "aes-256-cfb",
        "transport-key": "ppp",
        "masked": false,
        "plaintext": false,
        "delta-encode": false,
        "shuffle-data": false
    },
    "ip": {
        "public": "",
        "interface": ""
    },
    "vmem": {
        "size": 0,
        "path": ""
    },
    "tcp": {
        "inactive": {
            "timeout": 300
        },
        "connect": {
            "timeout": 5
        },
        "listen": {
            "port": 20000
        },
        "turbo": true,
        "backlog": 511,
        "fast-open": true
    },
    "udp": {
        "inactive": {
            "timeout": 72
        },
        "dns": {
            "timeout": 4,
            "redirect": "0.0.0.0"
        },
        "listen": {
            "port": 20000
        },
        "static": {
            "keep-alived": [1, 5],
            "dns": true,
            "quic": true,
            "icmp": true,
            "servers": ["127.0.0.1:20000"]
        }
    },
    "websocket": {
        "host": "",
        "path": "/tun",
        "listen": {
            "ws": 20080,
            "wss": 20443
        }
    },
    "client": {
        "guid": "{F4569208-BB45-4DEB-B115-0FEA1D91B85B}",
        "server": "ppp://127.0.0.1:20000/",
        "bandwidth": 0,
        "reconnections": {
            "timeout": 5
        },
        "paper-airplane": {
            "tcp": true
        },
        "http-proxy": {
            "bind": "127.0.0.1",
            "port": 8080
        },
        "socks-proxy": {
            "bind": "127.0.0.1",
            "port": 1080,
            "username": "",
            "password": ""
        }
    }
}"#;

/// `host:port`, the proxy's static server entry.
pub open spec fn host_port_text(ip: Seq<char>, port: u16) -> Seq<char> {
    ip + seq![':'] + decimal(port as nat)
}

/// `ppp://host:port/`, the proxy's server URI.
pub open spec fn server_uri(ip: Seq<char>, port: u16) -> Seq<char> {
    seq!['p', 'p', 'p', ':', '/', '/'] + host_port_text(ip, port) + seq!['/']
}

/// The document `template` with the field at key path `text_path` set to the
/// string `text` and the field at key path `list_path` set to the list of
/// strings `list`, serialised; `None` where `template` is not JSON.
pub uninterp spec fn json_with_fields(
    template: Seq<char>,
    text_path: Seq<Seq<char>>,
    text: Seq<char>,
    list_path: Seq<Seq<char>>,
    list: Seq<Seq<char>>,
) -> Option<Seq<char>>;

pub open spec fn opt_string_view(r: Option<String>) -> Option<Seq<char>> {
    match r {
        Some(s) => Some(s@),
        None => None,
    }
}

pub open spec fn strings_of(v: Seq<String>) -> Seq<Seq<char>> {
    v.map_values(|s: String| s@)
}

/// Relies on `json::parse`, `JsonValue`'s `IndexMut<&str>`, its `From`
/// conversions for `String` and `Vec<String>`, and `JsonValue::dump`
/// (json 0.12): the document is parsed, each key path is followed (making
/// objects where needed), the two values are assigned, and the result is
/// serialised. The output depends on the arguments alone.
#[verifier::external_body]
fn set_json_fields(
    template: &str,
    text_path: &Vec<String>,
    text: String,
    list_path: &Vec<String>,
    list: Vec<String>,
) -> (r: Option<String>)
    ensures
        opt_string_view(r) == json_with_fields(
            template@,
            strings_of(text_path@),
            text@,
            strings_of(list_path@),
            strings_of(list@),
        ),
{
    let mut doc = json::parse(template).ok()?;
    let mut node = &mut doc;
    for k in text_path {
        node = &mut node[k.as_str()];
    }
    *node = text.into();
    let mut node = &mut doc;
    for k in list_path {
        node = &mut node[k.as_str()];
    }
    *node = list.into();
    Some(doc.dump())
}

/// The key path of the proxy's server URI: `client.server`.
pub open spec fn server_path() -> Seq<Seq<char>> {
    seq!["client"@, "server"@]
}

/// The key path of the proxy's static server list: `udp.static.servers`.
pub open spec fn static_servers_path() -> Seq<Seq<char>> {
    seq!["udp"@, "static"@, "servers"@]
}

/// Writes `host:port`.
pub fn host_port_string(ip: &str, port: u16) -> (r: String)
    ensures
        r@ == host_port_text(ip@, port),
{
    proof {
        reveal_strlit(":");
    }
    let mut r = String::from_str(ip);
    r.append(":");
    let p = decimal_string(port);
    r.append(p.as_str());
    r
}

/// Writes `ppp://host:port/`.
pub fn server_uri_string(ip: &str, port: u16) -> (r: String)
    ensures
        r@ == server_uri(ip@, port),
{
    proof {
        reveal_strlit("ppp://");
        reveal_strlit("/");
    }
    let mut r = String::from_str("ppp://");
    let hp = host_port_string(ip, port);
    r.append(hp.as_str());
    r.append("/");
    assert(r@ =~= server_uri(ip@, port));
    r
}

/// The run configuration for a proxy server at `ip:port`: the base template
/// with `client.server` set to `ppp://ip:port/` and `udp.static.servers` to
/// `["ip:port"]`, serialised.
pub fn default_settings(ip: &str, port: u16) -> (r: Option<String>)
    ensures
        opt_string_view(r) == json_with_fields(
            APPSETTINGS_TEMPLATE@,
            server_path(),
            server_uri(ip@, port),
            static_servers_path(),
            seq![host_port_text(ip@, port)],
        ),
{
    let uri = server_uri_string(ip, port);
    let server = host_port_string(ip, port);
    let text_path = vec![String::from_str("client"), String::from_str("server")];
    let list_path = vec![
        String::from_str("udp"),
        String::from_str("static"),
        String::from_str("servers"),
    ];
    let ghost server_view = server@;
    let list = vec![server];
    assert(strings_of(text_path@) =~= server_path());
    assert(strings_of(list_path@) =~= static_servers_path());
    assert(strings_of(list@) =~= seq![server_view]);
    set_json_fields(APPSETTINGS_TEMPLATE, &text_path, uri, &list_path, list)
}

} // verus!
