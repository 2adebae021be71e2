//! Host aliases and addresses read from an OpenSSH client configuration.
use vstd::prelude::*;

use crate::client_config::{items_view, undefined_name, DefaultConfigItem, ItemModel};

verus! {

/// Unicode `White_Space`, the set that `char::is_whitespace` tests.
pub open spec fn is_whitespace(c: char) -> bool {
    let u = c as u32;
    (9 <= u && u <= 13) || u == 32 || u == 0x85 || u == 0xa0 || u == 0x1680 || (0x2000 <= u
        && u <= 0x200a) || u == 0x2028 || u == 0x2029 || u == 0x202f || u == 0x205f || u
        == 0x3000
}

/// Number of characters before the first whitespace (the whole length if none).
pub open spec fn word_len(s: Seq<char>) -> nat
    decreases s.len(),
{
    if s.len() == 0 || is_whitespace(s[0]) {
        0
    } else {
        1 + word_len(s.drop_first())
    }
}

/// The words of `s`, as `str::split_whitespace` yields them.
pub open spec fn split_whitespace(s: Seq<char>) -> Seq<Seq<char>>
    decreases s.len(),
    via split_whitespace_decreases
{
    if s.len() == 0 {
        seq![]
    } else if is_whitespace(s[0]) {
        split_whitespace(s.drop_first())
    } else {
        let w = word_len(s);
        seq![s.take(w as int)] + split_whitespace(s.subrange(w as int, s.len() as int))
    }
}

pub proof fn lemma_word_len_bound(s: Seq<char>)
    ensures
        word_len(s) <= s.len(),
        s.len() > 0 && !is_whitespace(s[0]) ==> word_len(s) >= 1,
    decreases s.len(),
{
    if s.len() > 0 && !is_whitespace(s[0]) {
        lemma_word_len_bound(s.drop_first());
    }
}

#[via_fn]
proof fn split_whitespace_decreases(s: Seq<char>) {
    lemma_word_len_bound(s);
}

/// Number of characters before the first `\n` (the whole length if none).
pub open spec fn line_len(s: Seq<char>) -> nat
    decreases s.len(),
{
    if s.len() == 0 || s[0] == '\n' {
        0
    } else {
        1 + line_len(s.drop_first())
    }
}

/// The lines of `s`: the pieces between `\n` characters, with no empty piece
/// after a final `\n`. (A `\r` before the `\n` stays; it is whitespace, so the
/// words of the line are the same.)
pub open spec fn lines_of(s: Seq<char>) -> Seq<Seq<char>>
    decreases s.len(),
{
    if s.len() == 0 {
        seq![]
    } else {
        let n = line_len(s);
        seq![s.take(n as int)] + if n < s.len() {
            lines_of(s.subrange(n as int + 1, s.len() as int))
        } else {
            seq![]
        }
    }
}

/// The directive that names a host alias.
pub open spec fn host_keyword() -> Seq<char> {
    seq!['H', 'o', 's', 't']
}

/// The directive that gives the address of the current alias.
pub open spec fn host_name_keyword() -> Seq<char> {
    seq!['H', 'o', 's', 't', 'N', 'a', 'm', 'e']
}

pub open spec fn is_directive(words: Seq<Seq<char>>, keyword: Seq<char>) -> bool {
    words.len() >= 2 && words[0] == keyword
}

/// The alias in effect after `lines`: the second word of the last `Host` line.
pub open spec fn alias_after(lines: Seq<Seq<char>>) -> Option<Seq<char>>
    decreases lines.len(),
{
    if lines.len() == 0 {
        None
    } else {
        let w = split_whitespace(lines.last());
        if is_directive(w, host_keyword()) {
            Some(w[1])
        } else {
            alias_after(lines.drop_last())
        }
    }
}

pub open spec fn alias_or_undefined(a: Option<Seq<char>>) -> Seq<char> {
    match a {
        Some(name) => name,
        None => undefined_name(),
    }
}

/// One entry per `HostName` line, in order: named by the alias in effect
/// (`undefined` before any `Host` line), addressed by the line's second word,
/// with `port`. Other directives, `Port` among them, are not read.
pub open spec fn ssh_entries(lines: Seq<Seq<char>>, port: u16) -> Seq<ItemModel>
    decreases lines.len(),
{
    if lines.len() == 0 {
        seq![]
    } else {
        let w = split_whitespace(lines.last());
        ssh_entries(lines.drop_last(), port) + if is_directive(w, host_name_keyword()) {
            seq![(alias_or_undefined(alias_after(lines.drop_last())), w[1], port)]
        } else {
            seq![]
        }
    }
}

/// Tests a character as `char::is_whitespace` does.
pub fn is_whitespace_char(c: char) -> (r: bool)
    ensures
        r == is_whitespace(c),
{
    let u = c as u32;
    (9 <= u && u <= 13) || u == 32 || u == 0x85 || u == 0xa0 || u == 0x1680 || (0x2000 <= u
        && u <= 0x200a) || u == 0x2028 || u == 0x2029 || u == 0x202f || u == 0x205f || u
        == 0x3000
}

/// Splits `s` into its whitespace-separated words.
pub fn split_words(s: &str) -> (r: Vec<String>)
    ensures
        r@.map_values(|w: String| w@) == split_whitespace(s@),
{
    let n = s.unicode_len();
    let mut words: Vec<String> = Vec::new();
    let mut i: usize = 0;
    assert(s@.subrange(0, n as int) =~= s@);
    while i < n
        invariant
            n == s@.len(),
            i <= n,
            words@.map_values(|w: String| w@) + split_whitespace(s@.subrange(i as int, n as int))
                == split_whitespace(s@),
        decreases n - i,
    {
        let ghost rest = s@.subrange(i as int, n as int);
        if is_whitespace_char(s.get_char(i)) {
            assert(rest.drop_first() =~= s@.subrange(i + 1, n as int));
            i = i + 1;
        } else {
            let mut j: usize = i + 1;
            assert(rest.drop_first() =~= s@.subrange(i + 1, n as int));
            while j < n && !is_whitespace_char(s.get_char(j))
                invariant
                    n == s@.len(),
                    i < j <= n,
                    rest == s@.subrange(i as int, n as int),
                    word_len(rest) == (j - i) + word_len(s@.subrange(j as int, n as int)),
                decreases n - j,
            {
                assert(s@.subrange(j as int, n as int).drop_first() =~= s@.subrange(
                    j + 1,
                    n as int,
                ));
                j = j + 1;
            }
            let w = String::from_str(s.substring_char(i, j));
            let ghost old_words = words@;
            words.push(w);
            proof {
                assert(rest.take(word_len(rest) as int) =~= s@.subrange(i as int, j as int));
                assert(rest.subrange(word_len(rest) as int, rest.len() as int) =~= s@.subrange(
                    j as int,
                    n as int,
                ));
                assert(words@.map_values(|w: String| w@) =~= old_words.map_values(
                    |w: String| w@,
                ).push(w@));
                assert(split_whitespace(rest) == seq![w@] + split_whitespace(
                    s@.subrange(j as int, n as int),
                ));
                assert(words@.map_values(|w: String| w@) + split_whitespace(
                    s@.subrange(j as int, n as int),
                ) =~= old_words.map_values(|w: String| w@) + split_whitespace(rest));
            }
            i = j;
        }
    }
    assert(words@.map_values(|w: String| w@) =~= words@.map_values(|w: String| w@)
        + split_whitespace(s@.subrange(n as int, n as int)));
    words
}

/// Finds the first `\n` of `s` at or after `from`; `s@.len()` if there is none.
fn find_newline(s: &str, from: usize) -> (r: usize)
    requires
        from <= s@.len(),
    ensures
        r == from + line_len(s@.subrange(from as int, s@.len() as int)),
        r <= s@.len(),
{
    let n = s.unicode_len();
    let mut i = from;
    while i < n && s.get_char(i) != '\n'
        invariant
            n == s@.len(),
            from <= i <= n,
            line_len(s@.subrange(from as int, n as int)) == (i - from) + line_len(
                s@.subrange(i as int, n as int),
            ),
        decreases n - i,
    {
        assert(s@.subrange(i as int, n as int).drop_first() =~= s@.subrange(i + 1, n as int));
        i = i + 1;
    }
    i
}

/// Reads the `Host` / `HostName` pairs of an ssh client configuration.
///
/// Each `HostName` line gives one entry, in file order, named by the alias of
/// the `Host` line before it (`undefined` where there is none) and carrying
/// `default_port`. Lines of fewer than two words are skipped.
pub fn parse_ssh_config(content: &str, default_port: u16) -> (r: Vec<DefaultConfigItem>)
    ensures
        items_view(r@) == ssh_entries(lines_of(content@), default_port),
{
    let n = content.unicode_len();
    let mut items: Vec<DefaultConfigItem> = Vec::new();
    let mut current: Option<String> = None;
    let mut i: usize = 0;
    let ghost mut done: Seq<Seq<char>> = seq![];
    let host = String::from_str("Host");
    let host_name = String::from_str("HostName");
    proof {
        reveal_strlit("Host");
        reveal_strlit("HostName");
        assert(host@ =~= host_keyword());
        assert(host_name@ =~= host_name_keyword());
        assert(content@.subrange(0, n as int) =~= content@);
    }
    while i < n
        invariant
            n == content@.len(),
            i <= n,
            host@ == host_keyword(),
            host_name@ == host_name_keyword(),
            lines_of(content@) == done + lines_of(content@.subrange(i as int, n as int)),
            items_view(items@) == ssh_entries(done, default_port),
            current matches Some(c) ==> alias_after(done) == Some(c@),
            current is None ==> alias_after(done) is None,
        decreases n - i,
    {
        let ghost rest = content@.subrange(i as int, n as int);
        let j = find_newline(content, i);
        let line = content.substring_char(i, j);
        assert(line@ =~= rest.take(line_len(rest) as int));
        let words = split_words(line);
        let ghost w = split_whitespace(line@);
        let ghost d2 = done.push(line@);
        let ghost old_items = items@;
        proof {
            assert(words@.len() == w.len());
            assert(d2.drop_last() =~= done);
            assert(d2.last() == line@);
            lemma_keywords_differ();
            if words@.len() >= 2 {
                assert(words@[0]@ == w[0]);
                assert(words@[1]@ == w[1]);
            }
        }
        if words.len() >= 2 && words[0] == host {
            current = Some(words[1].clone());
        } else if words.len() >= 2 && words[0] == host_name {
            let name = match &current {
                Some(c) => c.clone(),
                None => {
                    proof {
                        reveal_strlit("undefined");
                    }
                    let u = String::from_str("undefined");
                    assert(u@ =~= undefined_name());
                    u
                },
            };
            let ip = words[1].clone();
            items.push(DefaultConfigItem { name, ip, port: default_port });
            assert(items_view(items@) =~= items_view(old_items).push(
                (alias_or_undefined(alias_after(done)), w[1], default_port),
            ));
        }
        proof {
            assert(ssh_entries(d2, default_port) =~= items_view(items@));
            let ll = line_len(rest) as int;
            if j < n {
                assert(rest.subrange(ll + 1, rest.len() as int) =~= content@.subrange(
                    j + 1,
                    n as int,
                ));
                assert(lines_of(content@) =~= d2 + lines_of(content@.subrange(j + 1, n as int)));
            } else {
                assert(lines_of(content@.subrange(n as int, n as int)) =~= seq![]);
                assert(lines_of(content@) =~= d2 + lines_of(content@.subrange(n as int, n as int)));
            }
            done = d2;
        }
        i = if j < n {
            j + 1
        } else {
            n
        };
    }
    assert(done =~= lines_of(content@));
    items
}

/// The lines of `blocks`, one block after another.
pub open spec fn flatten_lines(blocks: Seq<Seq<Seq<char>>>) -> Seq<Seq<char>>
    decreases blocks.len(),
{
    if blocks.len() == 0 {
        seq![]
    } else {
        flatten_lines(blocks.drop_last()) + blocks.last()
    }
}

/// Neither a `Host` nor a `HostName` directive.
pub open spec fn is_other_line(line: Seq<char>) -> bool {
    let w = split_whitespace(line);
    !is_directive(w, host_keyword()) && !is_directive(w, host_name_keyword())
}

/// A `Host <alias>` line, then other lines of which exactly one, at index
/// `at`, is a `HostName <addr>` directive.
pub open spec fn is_host_block(b: Seq<Seq<char>>, alias: Seq<char>, addr: Seq<char>, at: int) -> bool {
    &&& 1 <= at < b.len()
    &&& is_directive(split_whitespace(b[0]), host_keyword())
    &&& split_whitespace(b[0])[1] == alias
    &&& is_directive(split_whitespace(b[at]), host_name_keyword())
    &&& split_whitespace(b[at])[1] == addr
    &&& forall|j: int| 1 <= j < b.len() && j != at ==> is_other_line(#[trigger] b[j])
}

proof fn lemma_keywords_differ()
    ensures
        host_keyword() != host_name_keyword(),
{
    assert(host_keyword().len() != host_name_keyword().len());
}

/// Reading the first `j` lines of a host block after `pre`.
proof fn lemma_block_prefix(
    pre: Seq<Seq<char>>,
    b: Seq<Seq<char>>,
    alias: Seq<char>,
    addr: Seq<char>,
    at: int,
    j: int,
    port: u16,
)
    requires
        is_host_block(b, alias, addr, at),
        1 <= j <= b.len(),
    ensures
        alias_after(pre + b.take(j)) == Some(alias),
        ssh_entries(pre + b.take(j), port) == ssh_entries(pre, port) + if j > at {
            seq![(alias, addr, port)]
        } else {
            Seq::<ItemModel>::empty()
        },
    decreases j,
{
    lemma_keywords_differ();
    let cur = pre + b.take(j);
    assert(cur.drop_last() =~= pre + b.take(j - 1));
    assert(cur.last() == b[j - 1]);
    if j == 1 {
        assert(pre + b.take(0) =~= pre);
        assert(ssh_entries(cur, port) =~= ssh_entries(pre, port) + Seq::<ItemModel>::empty());
    } else {
        lemma_block_prefix(pre, b, alias, addr, at, j - 1, port);
        if j - 1 == at {
            assert(ssh_entries(cur, port) =~= ssh_entries(pre, port) + seq![(alias, addr, port)]);
        } else {
            assert(is_other_line(b[j - 1]));
            assert(ssh_entries(cur, port) =~= ssh_entries(pre + b.take(j - 1), port));
        }
    }
}

/// A configuration made of host blocks, each a `Host` line whose block holds
/// exactly one `HostName` line and no other `Host` line, gives one entry per
/// block, in block order, named by the block's alias and addressed by its
/// host name.
pub proof fn lemma_host_blocks(
    blocks: Seq<Seq<Seq<char>>>,
    aliases: Seq<Seq<char>>,
    addrs: Seq<Seq<char>>,
    at: Seq<int>,
    port: u16,
)
    requires
        aliases.len() == blocks.len(),
        addrs.len() == blocks.len(),
        at.len() == blocks.len(),
        forall|i: int|
            0 <= i < blocks.len() ==> is_host_block(
                #[trigger] blocks[i],
                aliases[i],
                addrs[i],
                at[i],
            ),
    ensures
        ssh_entries(flatten_lines(blocks), port) == Seq::new(
            blocks.len(),
            |i: int| (aliases[i], addrs[i], port),
        ),
    decreases blocks.len(),
{
    let k = blocks.len() as int;
    if k == 0 {
        assert(ssh_entries(flatten_lines(blocks), port) =~= Seq::new(
            0,
            |i: int| (aliases[i], addrs[i], port),
        ));
    } else {
        let bs = blocks.drop_last();
        assert forall|i: int| 0 <= i < bs.len() implies is_host_block(
            #[trigger] bs[i],
            aliases.drop_last()[i],
            addrs.drop_last()[i],
            at.drop_last()[i],
        ) by {
            assert(bs[i] == blocks[i]);
        }
        lemma_host_blocks(bs, aliases.drop_last(), addrs.drop_last(), at.drop_last(), port);
        let b = blocks[k - 1];
        assert(is_host_block(b, aliases[k - 1], addrs[k - 1], at[k - 1]));
        lemma_block_prefix(
            flatten_lines(bs),
            b,
            aliases[k - 1],
            addrs[k - 1],
            at[k - 1],
            b.len() as int,
            port,
        );
        assert(b.take(b.len() as int) =~= b);
        assert(ssh_entries(flatten_lines(blocks), port) =~= Seq::new(
            blocks.len(),
            |i: int| (aliases[i], addrs[i], port),
        ));
    }
}

/// The entries read from the first lines of a configuration are the first
/// entries read from the whole of it.
pub proof fn lemma_entries_prefix(pre: Seq<Seq<char>>, post: Seq<Seq<char>>, port: u16)
    ensures
        ssh_entries(pre, port).len() <= ssh_entries(pre + post, port).len(),
        ssh_entries(pre + post, port).take(ssh_entries(pre, port).len() as int)
            == ssh_entries(pre, port),
    decreases post.len(),
{
    if post.len() == 0 {
        assert(pre + post =~= pre);
        assert(ssh_entries(pre, port).take(ssh_entries(pre, port).len() as int) =~= ssh_entries(
            pre,
            port,
        ));
    } else {
        lemma_entries_prefix(pre, post.drop_last(), port);
        assert((pre + post).drop_last() =~= pre + post.drop_last());
        let e = ssh_entries(pre + post, port);
        let m = ssh_entries(pre + post.drop_last(), port);
        assert(e.take(m.len() as int) =~= m);
        assert(e.take(ssh_entries(pre, port).len() as int) =~= m.take(
            ssh_entries(pre, port).len() as int,
        ));
    }
}

/// Every `HostName` line that comes before any `Host` line gives an entry
/// named `undefined`: where the first lines hold no `Host` directive, the
/// entries they give, which open the whole result, are all so named.
pub proof fn lemma_no_host_undefined(pre: Seq<Seq<char>>, post: Seq<Seq<char>>, port: u16)
    requires
        forall|i: int|
            0 <= i < pre.len() ==> !is_directive(
                #[trigger] split_whitespace(pre[i]),
                host_keyword(),
            ),
    ensures
        ssh_entries(pre + post, port).take(ssh_entries(pre, port).len() as int)
            == ssh_entries(pre, port),
        forall|j: int|
            0 <= j < ssh_entries(pre, port).len() ==> (#[trigger] ssh_entries(pre, port)[j]).0
                == undefined_name(),
        alias_after(pre) is None,
    decreases pre.len(),
{
    lemma_entries_prefix(pre, post, port);
    if pre.len() > 0 {
        let shorter = pre.drop_last();
        assert forall|i: int| 0 <= i < shorter.len() implies !is_directive(
            #[trigger] split_whitespace(shorter[i]),
            host_keyword(),
        ) by {
            assert(shorter[i] == pre[i]);
        }
        lemma_no_host_undefined(shorter, post, port);
        assert(split_whitespace(pre[pre.len() - 1]) == split_whitespace(pre.last()));
    }
}

} // verus!
