//! The frontmatter block: entries with distinct keys, kept in the order in which
//! their keys were first written.

use vstd::prelude::*;

verus! {

/// What an entry's value is, as mathematics.
pub enum ValueView {
    Scalar(Seq<char>),
    List(Seq<Seq<char>>),
}

/// An entry as mathematics: a key and its value.
pub struct EntryView {
    pub key: Seq<char>,
    pub value: ValueView,
}

/// The value of an entry: one string, or a list of strings in order.
#[derive(Debug, PartialEq, Eq)]
pub enum Value {
    Scalar(String),
    List(Vec<String>),
}

/// One entry of a block.
#[derive(Debug, PartialEq, Eq)]
pub struct Entry {
    pub key: String,
    pub value: Value,
}

/// A frontmatter block. No key is empty, no two entries have the same key, and
/// only the key `tags` holds a list. A key that is written again keeps its
/// place.
#[derive(Debug)]
pub struct Frontmatter {
    entries: Vec<Entry>,
}

/// The views of the strings of `v`, in order.
pub open spec fn strings_view(v: Seq<String>) -> Seq<Seq<char>> {
    Seq::new(v.len(), |i: int| v[i]@)
}

/// The views of the entries of `v`, in order.
pub open spec fn entries_view(v: Seq<Entry>) -> Seq<EntryView> {
    Seq::new(v.len(), |i: int| v[i]@)
}

/// The one key whose value is a list.
pub open spec fn tags_key() -> Seq<char> {
    seq!['t', 'a', 'g', 's']
}

/// The place of the entry with key `key` in `b`, or the length of `b` where no
/// entry has that key.
pub open spec fn position(b: Seq<EntryView>, key: Seq<char>) -> int
    decreases b.len(),
{
    if b.len() == 0 || b[0].key == key {
        0
    } else {
        1 + position(b.skip(1), key)
    }
}

/// Some entry of `b` has the key `key`.
pub open spec fn has_key(b: Seq<EntryView>, key: Seq<char>) -> bool {
    position(b, key) < b.len()
}

/// The value under `key` in `b`.
pub open spec fn lookup(b: Seq<EntryView>, key: Seq<char>) -> Option<ValueView> {
    if has_key(b, key) {
        Some(b[position(b, key)].value)
    } else {
        None
    }
}

/// `b` after `value` is written under `key`: in the place of the entry that had
/// the key, or at the end where none had it.
pub open spec fn put(b: Seq<EntryView>, key: Seq<char>, value: ValueView) -> Seq<EntryView> {
    if has_key(b, key) {
        b.update(position(b, key), EntryView { key, value })
    } else {
        b.push(EntryView { key, value })
    }
}

/// No two entries of `b` have the same key.
pub open spec fn unique_keys(b: Seq<EntryView>) -> bool {
    forall|i: int, j: int| 0 <= i < j < b.len() ==> b[i].key != b[j].key
}

/// Every list in `b` stands under the key `tags`.
pub open spec fn lists_are_tags(b: Seq<EntryView>) -> bool {
    forall|i: int| 0 <= i < b.len() && b[i].value is List ==> b[i].key == tags_key()
}

/// No entry of `b` has the empty key.
pub open spec fn keys_nonempty(b: Seq<EntryView>) -> bool {
    forall|i: int| 0 <= i < b.len() ==> (#[trigger] b[i]).key.len() > 0
}

/// What every block is: keys that are not empty and differ from each other,
/// and lists only under `tags`.
pub open spec fn is_block(b: Seq<EntryView>) -> bool {
    keys_nonempty(b) && unique_keys(b) && lists_are_tags(b)
}

/// `b` after a write of `value` under `key`. A write under the empty key is
/// passed over.
pub open spec fn written(b: Seq<EntryView>, key: Seq<char>, value: ValueView) -> Seq<EntryView> {
    if key.len() > 0 {
        put(b, key, value)
    } else {
        b
    }
}

/// Every value in `b` is a single string.
pub open spec fn scalar_only(b: Seq<EntryView>) -> bool {
    forall|i: int| 0 <= i < b.len() ==> b[i].value is Scalar
}

/// `position` is at most the length, no entry before it has the key, and where
/// it is less than the length, the entry there has the key.
pub proof fn lemma_position(b: Seq<EntryView>, key: Seq<char>)
    ensures
        0 <= position(b, key) <= b.len(),
        forall|j: int| 0 <= j < position(b, key) ==> b[j].key != key,
        has_key(b, key) ==> b[position(b, key)].key == key,
    decreases b.len(),
{
    if b.len() == 0 || b[0].key == key {
    } else {
        let t = b.skip(1);
        lemma_position(t, key);
        assert forall|j: int| 0 <= j < position(b, key) implies b[j].key != key by {
            if j > 0 {
                assert(t[j - 1] == b[j]);
            }
        }
        if position(t, key) < t.len() {
            assert(t[position(t, key)] == b[position(t, key) + 1]);
        }
    }
}

/// A place with no entry of that key before it, which is the length or holds
/// the key, is `position`.
pub proof fn lemma_position_is(b: Seq<EntryView>, key: Seq<char>, i: int)
    requires
        0 <= i <= b.len(),
        forall|j: int| 0 <= j < i ==> b[j].key != key,
        i < b.len() ==> b[i].key == key,
    ensures
        position(b, key) == i,
    decreases b.len(),
{
    if b.len() == 0 || b[0].key == key {
    } else {
        let t = b.skip(1);
        assert forall|j: int| 0 <= j < i - 1 implies t[j].key != key by {
            assert(t[j] == b[j + 1]);
        }
        lemma_position_is(t, key, i - 1);
    }
}

/// Writing an entry under a key that is not empty gives a block again, where
/// the value written is a string or the key is `tags`.
pub proof fn lemma_put_is_block(b: Seq<EntryView>, key: Seq<char>, value: ValueView)
    requires
        is_block(b),
        key.len() > 0,
        value is List ==> key == tags_key(),
    ensures
        is_block(put(b, key, value)),
{
    lemma_position(b, key);
}

/// After a write, the key written holds the value written, and every other key
/// holds what it held.
pub proof fn lemma_lookup_put(b: Seq<EntryView>, key: Seq<char>, value: ValueView, other: Seq<char>)
    ensures
        lookup(put(b, key, value), other) == if other == key {
            Some(value)
        } else {
            lookup(b, other)
        },
{
    let p = put(b, key, value);
    lemma_position(b, key);
    lemma_position(b, other);
    if other == key {
        lemma_position_is(p, key, position(b, key));
    } else if has_key(b, other) || has_key(b, key) {
        lemma_position_is(p, other, position(b, other));
    } else {
        lemma_position_is(p, other, p.len() as int);
    }
}

/// `base` after the entries of `layer` are written to it, in the order of
/// `layer`: where both have a key, the value of `layer` stands.
pub open spec fn overlay(base: Seq<EntryView>, layer: Seq<EntryView>) -> Seq<EntryView>
    decreases layer.len(),
{
    if layer.len() == 0 {
        base
    } else {
        put(overlay(base, layer.drop_last()), layer.last().key, layer.last().value)
    }
}

/// `base` after each of `layers` is laid over it, first layer first.
pub open spec fn overlay_all(base: Seq<EntryView>, layers: Seq<Seq<EntryView>>) -> Seq<EntryView>
    decreases layers.len(),
{
    if layers.len() == 0 {
        base
    } else {
        overlay(overlay_all(base, layers.drop_last()), layers.last())
    }
}

/// Laying a block over a block gives a block.
pub proof fn lemma_overlay_is_block(base: Seq<EntryView>, layer: Seq<EntryView>)
    requires
        is_block(base),
        is_block(layer),
    ensures
        is_block(overlay(base, layer)),
    decreases layer.len(),
{
    if layer.len() > 0 {
        let front = layer.drop_last();
        assert forall|i: int| 0 <= i < front.len() implies (#[trigger] front[i]) == layer[i] by {}
        assert(layer.last() == layer[layer.len() - 1]);
        lemma_overlay_is_block(base, front);
        lemma_put_is_block(overlay(base, layer.drop_last()), layer.last().key, layer.last().value);
    }
}

/// A later layer wins: after `layer` is laid over `base`, a key of `layer`
/// holds the value it has in `layer`, and any other key holds what it held in
/// `base`.
pub proof fn lemma_lookup_overlay(base: Seq<EntryView>, layer: Seq<EntryView>, key: Seq<char>)
    requires
        unique_keys(layer),
    ensures
        lookup(overlay(base, layer), key) == if has_key(layer, key) {
            lookup(layer, key)
        } else {
            lookup(base, key)
        },
    decreases layer.len(),
{
    lemma_position(layer, key);
    if layer.len() > 0 {
        let front = layer.drop_last();
        let e = layer.last();
        lemma_lookup_overlay(base, front, key);
        lemma_lookup_put(overlay(base, front), e.key, e.value, key);
        lemma_position(front, key);
        if e.key == key {
            lemma_position_is(layer, key, layer.len() - 1);
        } else if has_key(front, key) {
            lemma_position_is(layer, key, position(front, key));
        } else {
            assert forall|j: int| 0 <= j < layer.len() implies layer[j].key != key by {
                if j < front.len() {
                    assert(front[j] == layer[j]);
                }
            }
            lemma_position_is(layer, key, layer.len() as int);
        }
    }
}

impl View for Value {
    type V = ValueView;

    open spec fn view(&self) -> ValueView {
        match self {
            Value::Scalar(s) => ValueView::Scalar(s@),
            Value::List(items) => ValueView::List(strings_view(items@)),
        }
    }
}

impl View for Entry {
    type V = EntryView;

    open spec fn view(&self) -> EntryView {
        EntryView { key: self.key@, value: self.value@ }
    }
}

impl View for Frontmatter {
    type V = Seq<EntryView>;

    closed spec fn view(&self) -> Seq<EntryView> {
        entries_view(self.entries@)
    }
}

/// A copy of the strings of `v`.
pub fn copy_strings(v: &Vec<String>) -> (r: Vec<String>)
    ensures
        strings_view(r@) == strings_view(v@),
{
    let mut r: Vec<String> = Vec::new();
    let mut i: usize = 0;
    while i < v.len()
        invariant
            i <= v.len(),
            r.len() == i,
            forall|j: int| 0 <= j < i ==> r@[j]@ == v@[j]@,
        decreases v.len() - i,
    {
        r.push(v[i].clone());
        i += 1;
    }
    assert(strings_view(r@) =~= strings_view(v@));
    r
}

impl Value {
    /// A copy of the value.
    pub fn copy(&self) -> (r: Value)
        ensures
            r@ == self@,
    {
        match self {
            Value::Scalar(s) => Value::Scalar(s.clone()),
            Value::List(items) => Value::List(copy_strings(items)),
        }
    }
}

impl Frontmatter {
    /// What holds of every value of the type: its entries form a block.
    #[verifier::type_invariant]
    pub open spec fn valid(&self) -> bool {
        is_block(self@)
    }

    /// The block without entries.
    pub fn new() -> (r: Frontmatter)
        ensures
            r@ == Seq::<EntryView>::empty(),
    {
        let r = Frontmatter { entries: Vec::new() };
        assert(r@ =~= Seq::<EntryView>::empty());
        r
    }

    /// The number of entries.
    pub fn len(&self) -> (n: usize)
        ensures
            n == self@.len(),
    {
        self.entries.len()
    }

    /// Whether the block has no entry.
    pub fn is_empty(&self) -> (e: bool)
        ensures
            e == (self@.len() == 0),
    {
        self.entries.len() == 0
    }

    /// The entries, in the order in which their keys were first written.
    pub fn entries(&self) -> (r: &Vec<Entry>)
        ensures
            entries_view(r@) == self@,
            is_block(self@),
    {
        proof {
            use_type_invariant(self);
        }
        &self.entries
    }

    fn place(&self, key: &String) -> (i: usize)
        ensures
            i == position(self@, key@),
            i <= self@.len(),
    {
        let mut i: usize = 0;
        while i < self.entries.len() && self.entries[i].key != *key
            invariant
                i <= self.entries.len(),
                forall|j: int| 0 <= j < i ==> self@[j].key != key@,
            decreases self.entries.len() - i,
        {
            i += 1;
        }
        proof {
            lemma_position_is(self@, key@, i as int);
        }
        i
    }

    /// Whether an entry has the key `key`.
    pub fn contains_key(&self, key: &str) -> (r: bool)
        ensures
            r == has_key(self@, key@),
    {
        let k = key.to_owned();
        self.place(&k) < self.entries.len()
    }

    /// The value under `key`, where an entry has that key.
    pub fn get(&self, key: &str) -> (r: Option<&Value>)
        ensures
            match r {
                Some(v) => lookup(self@, key@) == Some(v@),
                None => lookup(self@, key@).is_none(),
            },
    {
        let k = key.to_owned();
        let i = self.place(&k);
        if i < self.entries.len() {
            Some(&self.entries[i].value)
        } else {
            None
        }
    }

    fn with(self, key: String, value: Value) -> (r: Frontmatter)
        requires
            key@.len() > 0,
            value@ is List ==> key@ == tags_key(),
        ensures
            r@ == put(self@, key@, value@),
    {
        proof {
            use_type_invariant(&self);
            lemma_put_is_block(self@, key@, value@);
        }
        let i = self.place(&key);
        let ghost before = self@;
        let mut entries = self.entries;
        let entry = Entry { key, value };
        if i < entries.len() {
            entries.set(i, entry);
            assert(entries_view(entries@) =~= before.update(i as int, entry@));
        } else {
            entries.push(entry);
            assert(entries_view(entries@) =~= before.push(entry@));
        }
        Frontmatter { entries }
    }

    fn write(&mut self, key: String, value: Value)
        requires
            key@.len() > 0,
            value@ is List ==> key@ == tags_key(),
        ensures
            final(self)@ == put(old(self)@, key@, value@),
    {
        let mut held = Frontmatter::new();
        std::mem::swap(self, &mut held);
        *self = held.with(key, value);
    }

    /// Writes the string `value` under `key`: in the place of the entry that had
    /// the key, or as a new last entry. A key must not be empty: a write under
    /// the empty key is passed over, and the result says whether the write was
    /// made.
    pub fn set(&mut self, key: String, value: String) -> (made: bool)
        ensures
            made == (key@.len() > 0),
            final(self)@ == written(old(self)@, key@, ValueView::Scalar(value@)),
            is_block(final(self)@),
    {
        let made = if key.as_str().is_empty() {
            false
        } else {
            self.write(key, Value::Scalar(value));
            true
        };
        proof {
            use_type_invariant(&*self);
        }
        made
    }

    /// Writes the list `tags` under the key `tags`, in place of whatever the key
    /// held.
    pub fn set_tags(&mut self, tags: Vec<String>)
        ensures
            final(self)@ == put(old(self)@, tags_key(), ValueView::List(strings_view(tags@))),
            is_block(final(self)@),
    {
        let key = "tags".to_owned();
        proof {
            reveal_strlit("tags");
            assert(key@ =~= tags_key());
        }
        self.write(key, Value::List(tags));
        proof {
            use_type_invariant(&*self);
        }
    }

    /// Lays `layer` over the block: each entry of `layer` is written to it, in
    /// the order of `layer`.
    pub fn overlay(&mut self, layer: &Frontmatter)
        ensures
            final(self)@ == overlay(old(self)@, layer@),
            is_block(final(self)@),
    {
        let entries = layer.entries();
        let mut i: usize = 0;
        assert(layer@.take(0) =~= Seq::<EntryView>::empty());
        while i < entries.len()
            invariant
                i <= entries.len(),
                entries_view(entries@) == layer@,
                is_block(layer@),
                self@ == overlay(old(self)@, layer@.take(i as int)),
            decreases entries.len() - i,
        {
            let key = entries[i].key.clone();
            let value = entries[i].value.copy();
            proof {
                assert(layer@.take(i + 1).drop_last() =~= layer@.take(i as int));
                assert(layer@.take(i + 1).last() == entries@[i as int]@);
                assert(layer@[i as int] == entries@[i as int]@);
            }
            self.write(key, value);
            i += 1;
        }
        assert(layer@.take(entries.len() as int) =~= layer@);
        proof {
            use_type_invariant(&*self);
        }
    }
}

} // verus!
