//! Turning the operator's pick from a menu into the item picked.
use vstd::prelude::*;

use crate::client_config::{item_label, DefaultConfigItem};

verus! {

/// `s` with every `\n` taken out.
pub open spec fn without_newlines(s: Seq<char>) -> Seq<char>
    decreases s.len(),
{
    if s.len() == 0 {
        Seq::empty()
    } else if s.last() == '\n' {
        without_newlines(s.drop_last())
    } else {
        without_newlines(s.drop_last()).push(s.last())
    }
}

/// Removes every `\n` from `s`, so that a label fits on one menu line.
pub fn strip_newlines(s: &str) -> (r: String)
    ensures
        r@ == without_newlines(s@),
{
    let n = s.unicode_len();
    let mut r = String::new();
    let mut i: usize = 0;
    while i < n
        invariant
            n == s@.len(),
            i <= n,
            r@ == without_newlines(s@.take(i as int)),
        decreases n - i,
    {
        let c = s.get_char(i);
        assert(s@.take(i + 1).drop_last() =~= s@.take(i as int));
        assert(s@.take(i + 1).last() == c);
        if c != '\n' {
            let piece = s.substring_char(i, i + 1);
            assert(piece@ =~= seq![c]);
            r.append(piece);
            assert(r@ =~= without_newlines(s@.take(i as int)).push(c));
        }
        i = i + 1;
    }
    assert(s@.take(n as int) =~= s@);
    r
}

/// The menu lines for `items`: each entry's label, on one line.
pub fn menu_labels(items: &Vec<DefaultConfigItem>) -> (r: Vec<String>)
    ensures
        r@.len() == items@.len(),
        forall|k: int|
            0 <= k < items@.len() ==> (#[trigger] r@[k])@ == without_newlines(
                item_label(items@[k]@),
            ),
{
    let mut r: Vec<String> = Vec::new();
    let mut i: usize = 0;
    while i < items.len()
        invariant
            i <= items@.len(),
            r@.len() == i,
            forall|k: int|
                0 <= k < i ==> (#[trigger] r@[k])@ == without_newlines(item_label(items@[k]@)),
        decreases items.len() - i,
    {
        let label = items[i].to_label();
        let line = strip_newlines(label.as_str());
        r.push(line);
        i = i + 1;
    }
    r
}

/// The item at the picked index: `None` where nothing was picked or the index
/// is past the end.
pub fn select_t<T>(items: Vec<T>, selected: Option<usize>) -> (r: Option<T>)
    ensures
        match selected {
            Some(i) => if i < items@.len() {
                r == Some(items@[i as int])
            } else {
                r is None
            },
            None => r is None,
        },
{
    match selected {
        Some(i) => if i < items.len() {
            let mut items = items;
            Some(items.remove(i))
        } else {
            None
        },
        None => None,
    }
}

} // verus!
