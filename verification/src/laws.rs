//! What holds of the functions of this library taken together.

use vstd::prelude::*;
use crate::block::{
    has_key, is_block, lemma_lookup_overlay, lemma_lookup_put, lemma_overlay_is_block,
    lemma_position, lemma_position_is, lemma_put_is_block, lookup, overlay, overlay_all,
    position, put, tags_key, unique_keys, EntryView, ValueView,
};
use crate::document::{document, RequestView};
use crate::merge::{
    derived_block, entry_of_pair, id_key, merged, pairs_block, title_key, with_field, with_pairs,
    with_tags, DerivedView,
};
use crate::serialize::{delimiter_line, entries_text, entry_text, serialized};
use crate::template::{
    after_delimiter, after_line, body_of, dashes, delimiter_start, entry_of_line, first_line,
    frontmatter_of, has_delimiter, line_stride, section_of, shape_of, with_line, with_lines,
    Shape,
};
use crate::text::{
    first_index, is_space, is_trimmed, lemma_first_index, lemma_first_index_is, trim_end,
    trim_start, trimmed,
};

verus! {

/// A key that reading a line can give: not empty, trimmed, without colon or
/// line break.
pub open spec fn plain_key(k: Seq<char>) -> bool {
    k.len() > 0 && is_trimmed(k) && !k.contains(':') && !k.contains('\n')
}

/// A value that reading a line can give: trimmed, without line break.
pub open spec fn plain_value(v: Seq<char>) -> bool {
    is_trimmed(v) && !v.contains('\n')
}

/// An entry that reading a line can give.
pub open spec fn plain_entry(e: EntryView) -> bool {
    match e.value {
        ValueView::Scalar(v) => plain_key(e.key) && plain_value(v),
        ValueView::List(_) => false,
    }
}

/// A block that reading a template can give: distinct keys, and every entry
/// one that a line can give.
pub open spec fn plain(b: Seq<EntryView>) -> bool {
    unique_keys(b) && forall|i: int| 0 <= i < b.len() ==> plain_entry(#[trigger] b[i])
}

/// Trimming at the start leaves no white space at the start, and brings in no
/// character.
pub proof fn lemma_trim_start(s: Seq<char>)
    ensures
        trim_start(s).len() > 0 ==> !is_space(trim_start(s)[0]),
        forall|c: char| !s.contains(c) ==> !trim_start(s).contains(c),
        trim_start(s).len() <= s.len(),
    decreases s.len(),
{
    if s.len() > 0 && is_space(s[0]) {
        lemma_trim_start(s.skip(1));
        assert forall|c: char| !s.contains(c) implies !trim_start(s).contains(c) by {
            if s.skip(1).contains(c) {
                let i = choose|i: int| 0 <= i < s.skip(1).len() && s.skip(1)[i] == c;
                assert(s[i + 1] == c);
            }
        }
    }
}

/// Trimming at the end leaves no white space at the end, keeps the first
/// character of what stays, and brings in no character.
pub proof fn lemma_trim_end(s: Seq<char>)
    ensures
        trim_end(s).len() > 0 ==> !is_space(trim_end(s).last()) && trim_end(s)[0] == s[0],
        forall|c: char| !s.contains(c) ==> !trim_end(s).contains(c),
        trim_end(s).len() <= s.len(),
    decreases s.len(),
{
    if s.len() > 0 && is_space(s.last()) {
        lemma_trim_end(s.drop_last());
        assert forall|c: char| !s.contains(c) implies !trim_end(s).contains(c) by {
            if s.drop_last().contains(c) {
                let i = choose|i: int| 0 <= i < s.drop_last().len() && s.drop_last()[i] == c;
                assert(s[i] == c);
            }
        }
    }
}

/// What trimming gives is trimmed, and holds no character that the text did not
/// hold.
pub proof fn lemma_trimmed(s: Seq<char>)
    ensures
        is_trimmed(trimmed(s)),
        forall|c: char| !s.contains(c) ==> !trimmed(s).contains(c),
{
    lemma_trim_start(s);
    lemma_trim_end(trim_start(s));
}

/// Trimming changes nothing in a trimmed text, and takes a space before it away.
pub proof fn lemma_trimmed_of_trimmed(s: Seq<char>)
    requires
        is_trimmed(s),
    ensures
        trimmed(s) == s,
        trimmed(seq![' '] + s) == s,
{
    let t = seq![' '] + s;
    assert(t.skip(1) =~= s);
    assert(t[0] == ' ');
}

/// A part of a text holds no character that the text does not hold.
pub proof fn lemma_part_holds_less(s: Seq<char>, lo: int, hi: int, c: char)
    requires
        0 <= lo <= hi <= s.len(),
        !s.contains(c),
    ensures
        !s.subrange(lo, hi).contains(c),
{
    let t = s.subrange(lo, hi);
    if t.contains(c) {
        let i = choose|i: int| 0 <= i < t.len() && t[i] == c;
        assert(s[lo + i] == c);
    }
}

/// The first line of a text holds no line break.
pub proof fn lemma_first_line_unbroken(s: Seq<char>)
    ensures
        !first_line(s).contains('\n'),
        0 <= first_index(s, '\n') <= s.len(),
        s.len() > 0 ==> 0 < line_stride(s) <= s.len(),
{
    lemma_first_index(s, '\n');
    let l = first_line(s);
    if l.contains('\n') {
        let i = choose|i: int| 0 <= i < l.len() && l[i] == '\n';
        assert(s[i] == '\n');
    }
}

/// The entry that an unbroken line gives is plain.
pub proof fn lemma_entry_of_line_plain(line: Seq<char>)
    requires
        !line.contains('\n'),
    ensures
        match entry_of_line(line) {
            Some(e) => plain_entry(e),
            None => true,
        },
{
    let i = first_index(line, ':');
    lemma_first_index(line, ':');
    if i < line.len() {
        let k = line.take(i);
        let v = line.skip(i + 1);
        assert(k == line.subrange(0, i));
        assert(v == line.subrange(i + 1, line.len() as int));
        lemma_part_holds_less(line, 0, i, '\n');
        lemma_part_holds_less(line, i + 1, line.len() as int, '\n');
        if k.contains(':') {
            let j = choose|j: int| 0 <= j < k.len() && k[j] == ':';
            assert(line[j] == ':');
        }
        lemma_trimmed(k);
        lemma_trimmed(v);
    }
}

/// Writing a plain entry to a plain block gives a plain block.
pub proof fn lemma_put_plain(b: Seq<EntryView>, e: EntryView)
    requires
        plain(b),
        plain_entry(e),
    ensures
        plain(put(b, e.key, e.value)),
{
    lemma_position(b, e.key);
    let p = put(b, e.key, e.value);
    assert(EntryView { key: e.key, value: e.value } == e);
    assert forall|i: int| 0 <= i < p.len() implies plain_entry(#[trigger] p[i]) by {
        if i < b.len() && i != position(b, e.key) {
            assert(p[i] == b[i]);
        }
    }
}

/// Reading lines into a plain block gives a plain block.
pub proof fn lemma_with_lines_plain(b: Seq<EntryView>, s: Seq<char>)
    requires
        plain(b),
    ensures
        plain(with_lines(b, s)),
    decreases s.len(),
{
    if s.len() > 0 {
        lemma_first_line_unbroken(s);
        lemma_entry_of_line_plain(first_line(s));
        match entry_of_line(first_line(s)) {
            Some(e) => {
                lemma_put_plain(b, e);
            },
            None => {},
        }
        lemma_with_lines_plain(with_line(b, first_line(s)), after_line(s));
    }
}

/// A plain block is a block: its keys are not empty and differ, and it holds no
/// list.
pub proof fn lemma_plain_is_block(b: Seq<EntryView>)
    requires
        plain(b),
    ensures
        is_block(b),
{
}

/// The entries of any template form a plain block: distinct keys, each not
/// empty, trimmed and without colon, and each value a trimmed string of one
/// line.
pub proof fn lemma_parsed_is_plain(text: Seq<char>)
    ensures
        plain(frontmatter_of(text)),
        is_block(frontmatter_of(text)),
{
    lemma_with_lines_plain(Seq::empty(), section_of(text));
}

/// The text of the entries of a block starts with the text of its first entry.
pub proof fn lemma_entries_text_front(b: Seq<EntryView>)
    requires
        b.len() > 0,
    ensures
        entries_text(b) == entry_text(b[0]) + entries_text(b.skip(1)),
    decreases b.len(),
{
    if b.len() == 1 {
        assert(b.drop_last() =~= Seq::<EntryView>::empty());
        assert(b.skip(1) =~= Seq::<EntryView>::empty());
        assert(entries_text(b.drop_last()) =~= Seq::<char>::empty());
        assert(entries_text(b) =~= entry_text(b[0]) + entries_text(b.skip(1)));
    } else {
        let front = b.drop_last();
        lemma_entries_text_front(front);
        assert(front.skip(1) =~= b.skip(1).drop_last());
        assert(b.skip(1).last() == b.last());
        assert(front[0] == b[0]);
        assert(entries_text(b) =~= entry_text(b[0]) + entries_text(b.skip(1)));
    }
}

/// A text that begins with an unbroken line and a line break has that line as
/// its first line, and what follows the break as the rest.
pub proof fn lemma_line_then(line: Seq<char>, rest: Seq<char>)
    requires
        !line.contains('\n'),
    ensures
        first_line(line + seq!['\n'] + rest) == line,
        line_stride(line + seq!['\n'] + rest) == line.len() + 1,
        after_line(line + seq!['\n'] + rest) == rest,
{
    let s = line + seq!['\n'] + rest;
    assert forall|j: int| 0 <= j < line.len() implies s[j] != '\n' by {
        assert(s[j] == line[j]);
        assert(line.contains(line[j]));
    }
    assert(s[line.len() as int] == '\n');
    lemma_first_index_is(s, '\n', line.len() as int);
    assert(s.take(line.len() as int) =~= line);
    assert(s.skip(line.len() as int + 1) =~= rest);
}

/// A text that begins with a delimiter line has it at its start, and what
/// follows that line follows the delimiter.
pub proof fn lemma_delimiter_first(rest: Seq<char>)
    ensures
        delimiter_start(delimiter_line() + rest) == 0,
        has_delimiter(delimiter_line() + rest),
        after_delimiter(delimiter_line() + rest) == rest,
{
    let s = delimiter_line() + rest;
    assert(!dashes().contains('\n')) by {
        if dashes().contains('\n') {
            let i = choose|i: int| 0 <= i < dashes().len() && dashes()[i] == '\n';
            assert(dashes()[i] == '-');
        }
    }
    lemma_line_then(dashes(), rest);
    assert(s =~= dashes() + seq!['\n'] + rest);
    assert(s.skip(0) =~= s);
}

/// The line of a plain entry: the key, a colon, a space and the value.
pub open spec fn entry_line(e: EntryView) -> Seq<char> {
    e.key + seq![':', ' '] + e.value->Scalar_0
}

/// The line of a plain entry is unbroken, is no delimiter line, and gives the
/// entry back.
pub proof fn lemma_entry_line(e: EntryView)
    requires
        plain_entry(e),
    ensures
        !entry_line(e).contains('\n'),
        entry_line(e) != dashes(),
        entry_text(e) == entry_line(e) + seq!['\n'],
        entry_of_line(entry_line(e)) == Some(e),
{
    let k = e.key;
    let v = e.value->Scalar_0;
    let c = entry_line(e);
    assert(c[k.len() as int] == ':');
    if c.contains('\n') {
        let i = choose|i: int| 0 <= i < c.len() && c[i] == '\n';
        if i < k.len() {
            assert(k[i] == '\n');
        } else if i >= k.len() + 2 {
            assert(v[i - k.len() - 2] == '\n');
        }
    }
    if c == dashes() {
        assert(dashes()[k.len() as int] == '-');
    }
    assert(entry_text(e) =~= c + seq!['\n']);
    assert forall|j: int| 0 <= j < k.len() implies c[j] != ':' by {
        assert(c[j] == k[j]);
        assert(k.contains(k[j]));
    }
    lemma_first_index_is(c, ':', k.len() as int);
    assert(c.take(k.len() as int) =~= k);
    assert(c.skip(k.len() as int + 1) =~= seq![' '] + v);
    lemma_trimmed_of_trimmed(k);
    lemma_trimmed_of_trimmed(v);
}

/// In the text of a plain block followed by a delimiter line, the first
/// delimiter line is the one that follows.
pub proof fn lemma_entries_then_delimiter(b: Seq<EntryView>, rest: Seq<char>)
    requires
        plain(b),
    ensures
        delimiter_start(entries_text(b) + delimiter_line() + rest) == entries_text(b).len(),
    decreases b.len(),
{
    let s = entries_text(b) + delimiter_line() + rest;
    if b.len() == 0 {
        lemma_delimiter_first(rest);
        assert(s =~= delimiter_line() + rest);
    } else {
        let e = b[0];
        let tail = b.skip(1);
        let after = entries_text(tail) + delimiter_line() + rest;
        lemma_entries_text_front(b);
        lemma_entry_line(e);
        lemma_line_then(entry_line(e), after);
        assert(s =~= entry_line(e) + seq!['\n'] + after);
        assert(plain(tail)) by {
            assert forall|i: int| 0 <= i < tail.len() implies plain_entry(#[trigger] tail[i]) by {
                assert(tail[i] == b[i + 1]);
            }
        }
        lemma_entries_then_delimiter(tail, rest);
    }
}

/// Reading the text of a plain block, into a block that has none of its keys,
/// appends its entries in their order.
pub proof fn lemma_read_entries(acc: Seq<EntryView>, b: Seq<EntryView>)
    requires
        plain(b),
        forall|i: int| 0 <= i < b.len() ==> !has_key(acc, #[trigger] b[i].key),
    ensures
        with_lines(acc, entries_text(b)) == acc + b,
    decreases b.len(),
{
    if b.len() == 0 {
        assert(acc + b =~= acc);
    } else {
        let e = b[0];
        let tail = b.skip(1);
        let s = entries_text(b);
        lemma_entries_text_front(b);
        lemma_entry_line(e);
        lemma_line_then(entry_line(e), entries_text(tail));
        assert(s =~= entry_line(e) + seq!['\n'] + entries_text(tail));
        assert(EntryView { key: e.key, value: e.value } == e);
        let next = acc.push(e);
        assert(with_line(acc, entry_line(e)) == next);
        assert(plain(tail)) by {
            assert forall|i: int| 0 <= i < tail.len() implies plain_entry(#[trigger] tail[i]) by {
                assert(tail[i] == b[i + 1]);
            }
        }
        assert forall|i: int| 0 <= i < tail.len() implies !has_key(next, #[trigger] tail[i].key) by {
            let key = tail[i].key;
            assert(tail[i] == b[i + 1]);
            assert(!has_key(acc, b[i + 1].key));
            lemma_position(acc, key);
            lemma_position_is(next, key, next.len() as int);
        }
        lemma_read_entries(next, tail);
        assert(next + tail =~= acc + b);
    }
}

/// Round trip: the text of a plain block is a complete template without body,
/// and reading it gives the block back, entry for entry and in the same order.
/// So serializing what was read gives the same text again.
pub proof fn lemma_round_trip(b: Seq<EntryView>)
    requires
        plain(b),
    ensures
        shape_of(serialized(b)) == Shape::Complete,
        frontmatter_of(serialized(b)) == b,
        body_of(serialized(b)) == Seq::<char>::empty(),
        serialized(frontmatter_of(serialized(b))) == serialized(b),
{
    let entries = entries_text(b);
    let rest = entries + delimiter_line();
    let text = serialized(b);
    assert(text =~= delimiter_line() + rest);
    lemma_delimiter_first(rest);
    lemma_entries_then_delimiter(b, Seq::empty());
    assert(rest =~= entries + delimiter_line() + Seq::<char>::empty());
    assert(rest.take(entries.len() as int) =~= entries);
    assert(rest.skip(entries.len() as int) =~= delimiter_line());
    lemma_delimiter_first(Seq::empty());
    assert(delimiter_line() + Seq::<char>::empty() =~= delimiter_line());
    assert(after_delimiter(rest) == Seq::<char>::empty()) by {
        assert(delimiter_line().skip(0) =~= delimiter_line());
    }
    lemma_read_entries(Seq::empty(), b);
    assert(Seq::<EntryView>::empty() + b =~= b);
}

/// Only a plain block comes back from its text: the round trip holds of a
/// block exactly when the block is plain.
pub proof fn lemma_round_trip_exactly_plain(b: Seq<EntryView>)
    ensures
        (frontmatter_of(serialized(b)) == b) <==> plain(b),
{
    lemma_parsed_is_plain(serialized(b));
    if plain(b) {
        lemma_round_trip(b);
    }
}

/// The block of any template comes back from its own text: serializing, reading
/// and serializing again gives the text of the first serializing.
pub proof fn lemma_template_round_trip(template: Seq<char>)
    ensures
        frontmatter_of(serialized(frontmatter_of(template))) == frontmatter_of(template),
        serialized(frontmatter_of(serialized(frontmatter_of(template)))) == serialized(
            frontmatter_of(template),
        ),
{
    lemma_parsed_is_plain(template);
    lemma_round_trip(frontmatter_of(template));
}

/// Laying a block over the empty block gives the block itself.
pub proof fn lemma_overlay_onto_empty(b: Seq<EntryView>)
    requires
        unique_keys(b),
    ensures
        overlay(Seq::empty(), b) == b,
    decreases b.len(),
{
    if b.len() > 0 {
        let front = b.drop_last();
        let e = b.last();
        lemma_overlay_onto_empty(front);
        assert forall|j: int| 0 <= j < front.len() implies front[j].key != e.key by {
            assert(front[j] == b[j]);
        }
        lemma_position_is(front, e.key, front.len() as int);
        assert(front.push(EntryView { key: e.key, value: e.value }) =~= b);
    } else {
        assert(b =~= Seq::<EntryView>::empty());
    }
}

/// Writing pairs to a block gives a block.
pub proof fn lemma_with_pairs_is_block(b: Seq<EntryView>, pairs: Seq<Seq<char>>)
    requires
        is_block(b),
    ensures
        is_block(with_pairs(b, pairs)),
    decreases pairs.len(),
{
    if pairs.len() > 0 {
        lemma_with_pairs_is_block(b, pairs.drop_last());
        match entry_of_pair(pairs.last()) {
            Some(e) => {
                lemma_put_is_block(with_pairs(b, pairs.drop_last()), e.key, e.value);
            },
            None => {},
        }
    }
}

/// The three keys of the derived fields differ.
pub proof fn lemma_derived_keys_differ()
    ensures
        title_key() != id_key(),
        title_key() != tags_key(),
        id_key() != tags_key(),
{
    assert(title_key().len() == 5);
    assert(id_key().len() == 2);
    assert(tags_key().len() == 4);
}

/// The layer of the derived fields is a block, and holds each field that is
/// given under its key: the title and the identifier as strings, the tags as
/// the list, in their order.
pub proof fn lemma_derived_block(d: DerivedView)
    ensures
        is_block(derived_block(d)),
        lookup(derived_block(d), title_key()) == match d.title {
            Some(t) => Some(ValueView::Scalar(t)),
            None => None,
        },
        lookup(derived_block(d), id_key()) == match d.id {
            Some(i) => Some(ValueView::Scalar(i)),
            None => None,
        },
        lookup(derived_block(d), tags_key()) == if d.tags.len() > 0 {
            Some(ValueView::List(d.tags))
        } else {
            None
        },
{
    lemma_derived_keys_differ();
    let e = Seq::<EntryView>::empty();
    let a = with_field(e, title_key(), d.title);
    let b = with_field(a, id_key(), d.id);
    let c = with_tags(b, d.tags);
    assert(is_block(e));
    if d.title.is_some() {
        lemma_put_is_block(e, title_key(), ValueView::Scalar(d.title.unwrap()));
        lemma_lookup_put(e, title_key(), ValueView::Scalar(d.title.unwrap()), title_key());
        lemma_lookup_put(e, title_key(), ValueView::Scalar(d.title.unwrap()), id_key());
        lemma_lookup_put(e, title_key(), ValueView::Scalar(d.title.unwrap()), tags_key());
    }
    if d.id.is_some() {
        lemma_put_is_block(a, id_key(), ValueView::Scalar(d.id.unwrap()));
        lemma_lookup_put(a, id_key(), ValueView::Scalar(d.id.unwrap()), title_key());
        lemma_lookup_put(a, id_key(), ValueView::Scalar(d.id.unwrap()), id_key());
        lemma_lookup_put(a, id_key(), ValueView::Scalar(d.id.unwrap()), tags_key());
    }
    if d.tags.len() > 0 {
        lemma_put_is_block(b, tags_key(), ValueView::List(d.tags));
        lemma_lookup_put(b, tags_key(), ValueView::List(d.tags), title_key());
        lemma_lookup_put(b, tags_key(), ValueView::List(d.tags), id_key());
        lemma_lookup_put(b, tags_key(), ValueView::List(d.tags), tags_key());
    }
}

/// The merged block is the template's block with the layer of the pairs laid
/// over it and the layer of the derived fields laid over that.
pub proof fn lemma_merged_unfolds(
    template: Seq<EntryView>,
    pairs: Seq<Seq<char>>,
    derived: DerivedView,
)
    requires
        unique_keys(template),
    ensures
        merged(template, pairs, derived) == overlay(
            overlay(template, pairs_block(pairs)),
            derived_block(derived),
        ),
{
    let three = seq![template, pairs_block(pairs), derived_block(derived)];
    let two = seq![template, pairs_block(pairs)];
    let one = seq![template];
    assert(three.drop_last() =~= two);
    assert(two.drop_last() =~= one);
    assert(one.drop_last() =~= Seq::<Seq<EntryView>>::empty());
    let none = Seq::<Seq<EntryView>>::empty();
    assert(overlay_all(Seq::empty(), none) == Seq::<EntryView>::empty());
    assert(overlay_all(Seq::empty(), one) == overlay(
        overlay_all(Seq::empty(), one.drop_last()),
        one.last(),
    ));
    assert(overlay_all(Seq::empty(), one) == overlay(Seq::empty(), template));
    assert(overlay_all(Seq::empty(), two) == overlay(
        overlay_all(Seq::empty(), one),
        pairs_block(pairs),
    ));
    lemma_overlay_onto_empty(template);
}

/// Merging keeps the keys distinct and lists under `tags` only.
pub proof fn lemma_merged_is_block(
    template: Seq<EntryView>,
    pairs: Seq<Seq<char>>,
    derived: DerivedView,
)
    requires
        is_block(template),
    ensures
        is_block(merged(template, pairs, derived)),
{
    lemma_merged_unfolds(template, pairs, derived);
    lemma_with_pairs_is_block(Seq::empty(), pairs);
    lemma_derived_block(derived);
    assert(is_block(Seq::<EntryView>::empty()));
    lemma_overlay_is_block(template, pairs_block(pairs));
    lemma_overlay_is_block(overlay(template, pairs_block(pairs)), derived_block(derived));
}

/// Precedence: under any key the merged block holds the value of the last layer
/// that has the key: of the derived fields, else of the pairs, else of the
/// template.
pub proof fn lemma_merged_lookup(
    template: Seq<EntryView>,
    pairs: Seq<Seq<char>>,
    derived: DerivedView,
    key: Seq<char>,
)
    requires
        is_block(template),
    ensures
        lookup(merged(template, pairs, derived), key) == if has_key(derived_block(derived), key) {
            lookup(derived_block(derived), key)
        } else if has_key(pairs_block(pairs), key) {
            lookup(pairs_block(pairs), key)
        } else {
            lookup(template, key)
        },
{
    lemma_merged_unfolds(template, pairs, derived);
    lemma_with_pairs_is_block(Seq::empty(), pairs);
    lemma_derived_block(derived);
    lemma_lookup_overlay(template, pairs_block(pairs), key);
    lemma_lookup_overlay(overlay(template, pairs_block(pairs)), derived_block(derived), key);
}

/// The derived fields win: a title or an identifier that is given stands in
/// the merged block whatever the template and the pairs hold, and tags that are
/// given stand there as the whole list, with nothing of an earlier list.
pub proof fn lemma_derived_fields_win(
    template: Seq<EntryView>,
    pairs: Seq<Seq<char>>,
    derived: DerivedView,
)
    requires
        is_block(template),
    ensures
        derived.title.is_some() ==> lookup(merged(template, pairs, derived), title_key()) == Some(
            ValueView::Scalar(derived.title.unwrap()),
        ),
        derived.id.is_some() ==> lookup(merged(template, pairs, derived), id_key()) == Some(
            ValueView::Scalar(derived.id.unwrap()),
        ),
        derived.tags.len() > 0 ==> lookup(merged(template, pairs, derived), tags_key()) == Some(
            ValueView::List(derived.tags),
        ),
{
    lemma_derived_block(derived);
    lemma_merged_lookup(template, pairs, derived, title_key());
    lemma_merged_lookup(template, pairs, derived, id_key());
    lemma_merged_lookup(template, pairs, derived, tags_key());
}

/// A template with fewer than two delimiter lines gives no entry and no body.
pub proof fn lemma_incomplete_template(text: Seq<char>)
    requires
        shape_of(text) != Shape::Complete,
    ensures
        frontmatter_of(text) == Seq::<EntryView>::empty(),
        body_of(text) == Seq::<char>::empty(),
{
}

/// A template with fewer than two delimiter lines leaves no trace in the
/// document: the document is that of the same request without a template.
pub proof fn lemma_incomplete_template_is_dropped(
    r: RequestView,
    text: Seq<char>,
    stamp: Option<Seq<char>>,
)
    requires
        shape_of(text) != Shape::Complete,
    ensures
        document(RequestView { template: Some(text), ..r }, stamp) == document(
            RequestView { template: None, ..r },
            stamp,
        ),
{
    lemma_incomplete_template(text);
}

/// The document is a function of the request: two requests that hold the same
/// values give the same document, whatever the clock says where the request
/// does not ask for it, and the same document for the same moment where it
/// does.
pub proof fn lemma_same_request_same_document(
    a: RequestView,
    b: RequestView,
    first: Option<Seq<char>>,
    second: Option<Seq<char>>,
)
    requires
        a == b,
        a.id_unix ==> first == second,
    ensures
        document(a, first) == document(b, second),
{
}

} // verus!
