//! The layers that a block is merged from: the entries of the template, the
//! explicit `key=value` pairs, and the derived fields. A later layer replaces
//! what an earlier one holds under the same key.

use vstd::prelude::*;
use crate::block::{
    is_block, overlay_all, put, strings_view, tags_key, EntryView, Frontmatter, ValueView,
};
use crate::text::{chars_of, find_char, first_index, string_of_range};

verus! {

/// The key of the title.
pub open spec fn title_key() -> Seq<char> {
    seq!['t', 'i', 't', 'l', 'e']
}

/// The key of the identifier.
pub open spec fn id_key() -> Seq<char> {
    seq!['i', 'd']
}

/// The entry of a pair: the pair is cut at its first `=`, and neither part is
/// trimmed. A pair without `=` gives none, and so does a pair that starts with
/// `=`.
pub open spec fn entry_of_pair(pair: Seq<char>) -> Option<EntryView> {
    let i = first_index(pair, '=');
    if 0 < i < pair.len() {
        Some(EntryView { key: pair.take(i), value: ValueView::Scalar(pair.skip(i + 1)) })
    } else {
        None
    }
}

/// `b` after the entry of `pair`, if it gives one, is written to it.
pub open spec fn with_pair(b: Seq<EntryView>, pair: Seq<char>) -> Seq<EntryView> {
    match entry_of_pair(pair) {
        Some(e) => put(b, e.key, e.value),
        None => b,
    }
}

/// `b` after the pairs are written to it, first pair first.
pub open spec fn with_pairs(b: Seq<EntryView>, pairs: Seq<Seq<char>>) -> Seq<EntryView>
    decreases pairs.len(),
{
    if pairs.len() == 0 {
        b
    } else {
        with_pair(with_pairs(b, pairs.drop_last()), pairs.last())
    }
}

/// The layer of the explicit pairs.
pub open spec fn pairs_block(pairs: Seq<Seq<char>>) -> Seq<EntryView> {
    with_pairs(Seq::empty(), pairs)
}

/// The derived fields as mathematics.
pub struct DerivedView {
    pub title: Option<Seq<char>>,
    pub id: Option<Seq<char>>,
    pub tags: Seq<Seq<char>>,
}

/// `b` after `value`, if there is one, is written under `key`, which is not
/// empty.
pub open spec fn with_field(b: Seq<EntryView>, key: Seq<char>, value: Option<Seq<char>>) -> Seq<
    EntryView,
> {
    match value {
        Some(v) => put(b, key, ValueView::Scalar(v)),
        None => b,
    }
}

/// `b` after the tags, if there is any, are written as the list under `tags`.
pub open spec fn with_tags(b: Seq<EntryView>, tags: Seq<Seq<char>>) -> Seq<EntryView> {
    if tags.len() > 0 {
        put(b, tags_key(), ValueView::List(tags))
    } else {
        b
    }
}

/// The layer of the derived fields: the title, the identifier and the tags, each
/// where it is given.
pub open spec fn derived_block(d: DerivedView) -> Seq<EntryView> {
    with_tags(with_field(with_field(Seq::empty(), title_key(), d.title), id_key(), d.id), d.tags)
}

/// The identifier that is written: the one taken from the clock where there is
/// one, else the explicit one.
pub open spec fn chosen_id(explicit: Option<Seq<char>>, stamp: Option<Seq<char>>) -> Option<
    Seq<char>,
> {
    if stamp.is_some() {
        stamp
    } else {
        explicit
    }
}

/// The merged block: the template's entries, then the pairs, then the derived
/// fields, each laid over what came before.
pub open spec fn merged(
    template: Seq<EntryView>,
    pairs: Seq<Seq<char>>,
    derived: DerivedView,
) -> Seq<EntryView> {
    overlay_all(Seq::empty(), seq![template, pairs_block(pairs), derived_block(derived)])
}

/// The view of a string that may be absent.
pub open spec fn text_of(s: Option<String>) -> Option<Seq<char>> {
    match s {
        Some(t) => Some(t@),
        None => None,
    }
}

/// The views of the blocks of `v`, in order.
pub open spec fn blocks_view(v: Seq<Frontmatter>) -> Seq<Seq<EntryView>> {
    Seq::new(v.len(), |i: int| v[i]@)
}

/// The fields that the caller derives: a title, an identifier and tags. No
/// tags means that the tags of earlier layers stay.
#[derive(Debug)]
pub struct Derived {
    pub title: Option<String>,
    pub id: Option<String>,
    pub tags: Vec<String>,
}

impl View for Derived {
    type V = DerivedView;

    open spec fn view(&self) -> DerivedView {
        DerivedView {
            title: text_of(self.title),
            id: text_of(self.id),
            tags: strings_view(self.tags@),
        }
    }
}

/// Writes to `block` the entry that `pair` gives, if it gives one.
pub fn read_pair(block: &mut Frontmatter, pair: &str)
    ensures
        final(block)@ == with_pair(old(block)@, pair@),
        is_block(final(block)@),
{
    let v = chars_of(pair);
    let cut = find_char(&v, 0, v.len(), '=');
    assert(v@.subrange(0, v.len() as int) == v@);
    if 0 < cut && cut < v.len() {
        block.set(string_of_range(&v, 0, cut), string_of_range(&v, cut + 1, v.len()));
    }
    proof {
        use_type_invariant(&*block);
    }
}

/// The layer of the explicit pairs. A pair without `=`, or with nothing before
/// it, is passed over.
pub fn layer_of_pairs(pairs: &Vec<String>) -> (layer: Frontmatter)
    ensures
        layer@ == pairs_block(strings_view(pairs@)),
        is_block(layer@),
{
    let ghost all = strings_view(pairs@);
    let mut layer = Frontmatter::new();
    let mut i: usize = 0;
    while i < pairs.len()
        invariant
            i <= pairs.len(),
            all == strings_view(pairs@),
            layer@ == with_pairs(Seq::empty(), all.take(i as int)),
        decreases pairs.len() - i,
    {
        proof {
            assert(all.take(i + 1).drop_last() =~= all.take(i as int));
        }
        read_pair(&mut layer, pairs[i].as_str());
        i += 1;
    }
    assert(all.take(pairs.len() as int) =~= all);
    proof {
        use_type_invariant(&layer);
    }
    layer
}

/// Writes `value`, if there is one, under `key`.
fn write_field(block: &mut Frontmatter, key: &str, value: &Option<String>)
    requires
        key@.len() > 0,
    ensures
        final(block)@ == with_field(old(block)@, key@, text_of(*value)),
{
    match value {
        Some(v) => {
            block.set(key.to_owned(), v.clone());
        },
        None => {},
    }
}

/// The layer of the derived fields.
pub fn layer_of_derived(derived: &Derived) -> (layer: Frontmatter)
    ensures
        layer@ == derived_block(derived@),
        is_block(layer@),
{
    let mut layer = Frontmatter::new();
    proof {
        reveal_strlit("title");
        reveal_strlit("id");
        assert("title"@ =~= title_key());
        assert("id"@ =~= id_key());
    }
    write_field(&mut layer, "title", &derived.title);
    write_field(&mut layer, "id", &derived.id);
    if derived.tags.len() > 0 {
        layer.set_tags(crate::block::copy_strings(&derived.tags));
    }
    proof {
        use_type_invariant(&layer);
    }
    layer
}

/// The identifier that is written: `stamp` where there is one, else `explicit`.
pub fn choose_id(explicit: Option<String>, stamp: Option<String>) -> (id: Option<String>)
    ensures
        text_of(id) == chosen_id(text_of(explicit), text_of(stamp)),
{
    if stamp.is_some() {
        stamp
    } else {
        explicit
    }
}

/// Lays the layers over the empty block, first layer first.
pub fn merge_layers(layers: &Vec<Frontmatter>) -> (block: Frontmatter)
    ensures
        block@ == overlay_all(Seq::empty(), blocks_view(layers@)),
        is_block(block@),
{
    let ghost all = blocks_view(layers@);
    let mut block = Frontmatter::new();
    let mut i: usize = 0;
    while i < layers.len()
        invariant
            i <= layers.len(),
            all == blocks_view(layers@),
            block@ == overlay_all(Seq::empty(), all.take(i as int)),
        decreases layers.len() - i,
    {
        proof {
            assert(all.take(i + 1).drop_last() =~= all.take(i as int));
        }
        block.overlay(&layers[i]);
        i += 1;
    }
    assert(all.take(layers.len() as int) =~= all);
    proof {
        use_type_invariant(&block);
    }
    block
}

/// The merged block: the template's entries, the explicit pairs laid over
/// them, and the derived fields laid over both.
pub fn merge(template: Frontmatter, pairs: &Vec<String>, derived: &Derived) -> (block: Frontmatter)
    ensures
        block@ == merged(template@, strings_view(pairs@), derived@),
        is_block(block@),
{
    let mut layers: Vec<Frontmatter> = Vec::new();
    layers.push(template);
    layers.push(layer_of_pairs(pairs));
    layers.push(layer_of_derived(derived));
    assert(blocks_view(layers@) =~= seq![
        template@,
        pairs_block(strings_view(pairs@)),
        derived_block(derived@),
    ]);
    merge_layers(&layers)
}

} // verus!
