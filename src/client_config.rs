//! The operator's settings and the host/port entries they list.
use vstd::prelude::*;

use crate::decimal::{decimal, decimal_string, parse_u16, spec_parse_u16};

verus! {

/// The name, ip and port of a default openppp2 configuration.
#[derive(Debug, Clone, PartialEq, Eq)]
pub struct DefaultConfigItem {
    pub name: String,
    pub ip: String,
    pub port: u16,
}

/// The top-level settings of the launcher.
#[derive(Debug, Clone, PartialEq, Eq)]
pub struct ClientConfig {
    pub defaults: Vec<DefaultConfigItem>,
    /// Directories searched for `*.json` run configurations, in order.
    pub config_dirs: Vec<String>,
    /// Arguments handed to the proxy before its `--config` flag.
    pub args: Vec<String>,
    /// The port given to entries read from the ssh config file.
    pub default_port_for_ssh: u16,
    /// Whether to enable chnroutes by default.
    pub enable_chnroutes_by_default: bool,
}

/// A default entry as a mathematical value: name, ip and port.
pub type ItemModel = (Seq<char>, Seq<char>, u16);

impl View for DefaultConfigItem {
    type V = ItemModel;

    open spec fn view(&self) -> ItemModel {
        (self.name@, self.ip@, self.port)
    }
}

pub open spec fn undefined_name() -> Seq<char> {
    seq!['u', 'n', 'd', 'e', 'f', 'i', 'n', 'e', 'd']
}

/// Number of leading `/` characters.
pub open spec fn leading_slashes(s: Seq<char>) -> nat
    decreases s.len(),
{
    if s.len() > 0 && s[0] == '/' {
        1 + leading_slashes(s.drop_first())
    } else {
        0
    }
}

/// Number of trailing `/` characters.
pub open spec fn trailing_slashes(s: Seq<char>) -> nat
    decreases s.len(),
{
    if s.len() > 0 && s.last() == '/' {
        1 + trailing_slashes(s.drop_last())
    } else {
        0
    }
}

/// `s` without its leading and trailing `/` characters.
pub open spec fn trim_slashes(s: Seq<char>) -> Seq<char> {
    if leading_slashes(s) >= s.len() {
        Seq::empty()
    } else {
        s.subrange(leading_slashes(s) as int, s.len() - trailing_slashes(s))
    }
}

/// Number of characters before the first `:` (the whole length if none).
pub open spec fn segment_len(s: Seq<char>) -> nat
    decreases s.len(),
{
    if s.len() == 0 || s[0] == ':' {
        0
    } else {
        1 + segment_len(s.drop_first())
    }
}

/// Host and port of a `[/]host:port[/]` shorthand: slashes are trimmed at both
/// ends, the host is everything before the first `:`, the port everything
/// after it, which must read as a `u16`.
pub open spec fn spec_parse_host_port(s: Seq<char>) -> Option<(Seq<char>, u16)> {
    let t = trim_slashes(s);
    let a = segment_len(t);
    if a >= t.len() {
        None
    } else {
        match spec_parse_u16(t.subrange(a as int + 1, t.len() as int)) {
            Some(port) => Some((t.take(a as int), port)),
            None => None,
        }
    }
}

/// The example entry: `example`, `127.0.0.1`, port 2777.
pub open spec fn example_item() -> ItemModel {
    (
        seq!['e', 'x', 'a', 'm', 'p', 'l', 'e'],
        seq!['1', '2', '7', '.', '0', '.', '0', '.', '1'],
        2777u16,
    )
}

/// The one-line label of an entry: `name, ip:port`.
pub open spec fn item_label(m: ItemModel) -> Seq<char> {
    m.0 + seq![',', ' '] + m.1 + seq![':'] + decimal(m.2 as nat)
}

/// Finds the first `:` of `s` at or after `from`; `s@.len()` if there is none.
fn find_colon(s: &str, from: usize) -> (r: usize)
    requires
        from <= s@.len(),
    ensures
        r == from + segment_len(s@.subrange(from as int, s@.len() as int)),
{
    let n = s.unicode_len();
    let mut i = from;
    while i < n && s.get_char(i) != ':'
        invariant
            n == s@.len(),
            from <= i <= n,
            segment_len(s@.subrange(from as int, n as int)) == (i - from) + segment_len(
                s@.subrange(i as int, n as int),
            ),
        decreases n - i,
    {
        assert(s@.subrange(i as int, n as int).drop_first() =~= s@.subrange(i + 1, n as int));
        i = i + 1;
    }
    i
}

/// Strips every leading and trailing `/`, as `str::trim_matches('/')` does.
fn trim_slashes_str(s: &str) -> (r: &str)
    ensures
        r@ == trim_slashes(s@),
{
    let n = s.unicode_len();
    let mut lo: usize = 0;
    assert(s@.subrange(0, n as int) =~= s@);
    while lo < n && s.get_char(lo) == '/'
        invariant
            n == s@.len(),
            lo <= n,
            leading_slashes(s@) == lo + leading_slashes(s@.subrange(lo as int, n as int)),
        decreases n - lo,
    {
        assert(s@.subrange(lo as int, n as int).drop_first() =~= s@.subrange(lo + 1, n as int));
        lo = lo + 1;
    }
    if lo == n {
        return s.substring_char(0, 0);
    }
    assert(s@.subrange(lo as int, n as int)[0] == s@[lo as int]);
    let mut hi: usize = n;
    assert(s@.take(n as int) =~= s@);
    while hi > lo + 1 && s.get_char(hi - 1) == '/'
        invariant
            n == s@.len(),
            lo < hi <= n,
            s@[lo as int] != '/',
            trailing_slashes(s@) == (n - hi) + trailing_slashes(s@.take(hi as int)),
        decreases hi,
    {
        assert(s@.take(hi as int).drop_last() =~= s@.take(hi - 1));
        hi = hi - 1;
    }
    assert(s@.take(hi as int).last() == s@[hi - 1]);
    s.substring_char(lo, hi)
}

impl DefaultConfigItem {
    /// Parses a `[/]host:port[/]` shorthand into an entry named `undefined`.
    ///
    /// Returns `None` where there is no `:` or the port segment does not read
    /// as a `u16`.
    pub fn parse(s: &str) -> (r: Option<Self>)
        ensures
            match spec_parse_host_port(s@) {
                None => r is None,
                Some(hp) => r matches Some(item) && item@ == (undefined_name(), hp.0, hp.1),
            },
    {
        let t = trim_slashes_str(s);
        let n = t.unicode_len();
        let ghost tt = t@;
        let a = find_colon(t, 0);
        assert(tt.subrange(0, n as int) =~= tt);
        assert(a == segment_len(tt));
        if a >= n {
            return None;
        }
        let ps = t.substring_char(a + 1, n);
        let port = match parse_u16(ps) {
            Some(p) => p,
            None => {
                return None;
            },
        };
        proof {
            reveal_strlit("undefined");
            assert(t@.take(a as int) =~= t@.subrange(0, a as int));
        }
        let name = String::from_str("undefined");
        assert(name@ =~= undefined_name());
        Some(DefaultConfigItem { name, ip: String::from_str(t.substring_char(0, a)), port })
    }

    /// The example entry written into a fresh settings file.
    pub fn example() -> (r: Self)
        ensures
            r@ == example_item(),
    {
        proof {
            reveal_strlit("example");
            reveal_strlit("127.0.0.1");
        }
        let r = DefaultConfigItem {
            name: String::from_str("example"),
            ip: String::from_str("127.0.0.1"),
            port: 2777,
        };
        assert(r.name@ =~= seq!['e', 'x', 'a', 'm', 'p', 'l', 'e']);
        assert(r.ip@ =~= seq!['1', '2', '7', '.', '0', '.', '0', '.', '1']);
        r
    }

    /// The one-line label of this entry: `name, ip:port`.
    pub fn to_label(&self) -> (r: String)
        ensures
            r@ == item_label(self@),
    {
        proof {
            reveal_strlit(", ");
            reveal_strlit(":");
        }
        let mut r = self.name.clone();
        r.append(", ");
        r.append(self.ip.as_str());
        r.append(":");
        let p = decimal_string(self.port);
        r.append(p.as_str());
        assert(r@ =~= item_label(self@));
        r
    }
}

/// The arguments that a fresh settings file hands to the proxy: client mode,
/// the tunnel's address, gateway and mask, and the feature switches.
pub open spec fn baseline_args() -> Seq<Seq<char>> {
    seq![
        "--mode=client"@,
        "--tun-ip=10.0.0.2"@,
        "--tun-gw=10.0.0.0"@,
        "--tun-mask=24"@,
        "--tun-host=yes"@,
        "--tun-flash=yes"@,
        "--tun-vnet=yes"@,
        "--block-quic=yes"@,
        "--set-http-proxy=yes"@,
        "--tun-mux=4"@,
    ]
}

pub open spec fn strings_view(v: Seq<String>) -> Seq<Seq<char>> {
    v.map_values(|s: String| s@)
}

pub open spec fn items_view(v: Seq<DefaultConfigItem>) -> Seq<ItemModel> {
    v.map_values(|i: DefaultConfigItem| i@)
}

impl ClientConfig {
    /// The settings written on first run, where `settings_dir` is the
    /// directory of the settings file: the example entry, the search
    /// directories `.` and `settings_dir`, the baseline arguments, port 80 for
    /// ssh entries, and chnroutes off.
    pub fn builtin(settings_dir: String) -> (r: Self)
        ensures
            items_view(r.defaults@) == seq![example_item()],
            strings_view(r.config_dirs@) == seq!["."@, settings_dir@],
            strings_view(r.args@) == baseline_args(),
            r.default_port_for_ssh == 80,
            !r.enable_chnroutes_by_default,
    {
        let defaults = vec![DefaultConfigItem::example()];
        let config_dirs = vec![String::from_str("."), settings_dir];
        let args = vec![
            String::from_str("--mode=client"),
            String::from_str("--tun-ip=10.0.0.2"),
            String::from_str("--tun-gw=10.0.0.0"),
            String::from_str("--tun-mask=24"),
            String::from_str("--tun-host=yes"),
            String::from_str("--tun-flash=yes"),
            String::from_str("--tun-vnet=yes"),
            String::from_str("--block-quic=yes"),
            String::from_str("--set-http-proxy=yes"),
            String::from_str("--tun-mux=4"),
        ];
        assert(items_view(defaults@) =~= seq![example_item()]);
        assert(strings_view(config_dirs@) =~= seq!["."@, settings_dir@]);
        assert(strings_view(args@) =~= baseline_args());
        ClientConfig {
            defaults,
            config_dirs,
            args,
            default_port_for_ssh: 80,
            enable_chnroutes_by_default: false,
        }
    }
}

impl Default for DefaultConfigItem {
    fn default() -> (r: Self)
        ensures
            r@ == example_item(),
    {
        DefaultConfigItem::example()
    }
}

} // verus!
