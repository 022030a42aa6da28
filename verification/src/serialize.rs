//! The text of a block: a delimiter line, the entries in their order, and a
//! delimiter line.

use vstd::prelude::*;
use vstd::string::StringExecFns;
use crate::block::{entries_view, strings_view, Entry, EntryView, Frontmatter, Value, ValueView};
use crate::template::dashes;

verus! {

/// A delimiter line with its line break.
pub open spec fn delimiter_line() -> Seq<char> {
    dashes().push('\n')
}

/// The line of one item of a list.
pub open spec fn item_text(item: Seq<char>) -> Seq<char> {
    seq!['-', ' '] + item + seq!['\n']
}

/// The lines of the items of a list, in the list's order.
pub open spec fn items_text(items: Seq<Seq<char>>) -> Seq<char>
    decreases items.len(),
{
    if items.len() == 0 {
        Seq::empty()
    } else {
        items_text(items.drop_last()) + item_text(items.last())
    }
}

/// The text of one entry: `key: value` for a string; for a list the line `key:`
/// and then one line for each item.
pub open spec fn entry_text(e: EntryView) -> Seq<char> {
    match e.value {
        ValueView::Scalar(v) => e.key + seq![':', ' '] + v + seq!['\n'],
        ValueView::List(items) => e.key + seq![':', '\n'] + items_text(items),
    }
}

/// The texts of the entries of `b`, in the order of `b`.
pub open spec fn entries_text(b: Seq<EntryView>) -> Seq<char>
    decreases b.len(),
{
    if b.len() == 0 {
        Seq::empty()
    } else {
        entries_text(b.drop_last()) + entry_text(b.last())
    }
}

/// The text of the block `b`.
pub open spec fn serialized(b: Seq<EntryView>) -> Seq<char> {
    delimiter_line() + entries_text(b) + delimiter_line()
}

/// Appends a delimiter line to `out`.
fn push_delimiter(out: &mut String)
    ensures
        final(out)@ == old(out)@ + delimiter_line(),
{
    out.push('-');
    out.push('-');
    out.push('-');
    out.push('\n');
}

/// Appends the lines of the items of a list to `out`.
fn push_items(out: &mut String, items: &Vec<String>)
    ensures
        final(out)@ == old(out)@ + items_text(strings_view(items@)),
{
    let ghost all = strings_view(items@);
    let mut i: usize = 0;
    while i < items.len()
        invariant
            i <= items.len(),
            all == strings_view(items@),
            out@ == old(out)@ + items_text(all.take(i as int)),
        decreases items.len() - i,
    {
        out.push('-');
        out.push(' ');
        out.append(items[i].as_str());
        out.push('\n');
        assert(all.take(i + 1).drop_last() =~= all.take(i as int));
        i += 1;
    }
    assert(all.take(items.len() as int) =~= all);
}

/// Appends the text of one entry to `out`.
fn push_entry(out: &mut String, entry: &Entry)
    ensures
        final(out)@ == old(out)@ + entry_text(entry@),
{
    out.append(entry.key.as_str());
    out.push(':');
    match &entry.value {
        Value::Scalar(v) => {
            out.push(' ');
            out.append(v.as_str());
            out.push('\n');
        },
        Value::List(items) => {
            out.push('\n');
            push_items(out, items);
        },
    }
}

/// The text of a block: the opening delimiter line, the entries in the order in
/// which their keys were first written, and the closing delimiter line.
pub fn serialize_frontmatter(frontmatter: &Frontmatter) -> (out: String)
    ensures
        out@ == serialized(frontmatter@),
{
    let entries = frontmatter.entries();
    let ghost b = frontmatter@;
    let mut out = String::new();
    push_delimiter(&mut out);
    let mut i: usize = 0;
    while i < entries.len()
        invariant
            i <= entries.len(),
            b == entries_view(entries@),
            out@ == delimiter_line() + entries_text(b.take(i as int)),
        decreases entries.len() - i,
    {
        push_entry(&mut out, &entries[i]);
        assert(b.take(i + 1).drop_last() =~= b.take(i as int));
        i += 1;
    }
    assert(b.take(entries.len() as int) =~= b);
    push_delimiter(&mut out);
    out
}

} // verus!
