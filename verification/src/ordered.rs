//! Associations and sets kept in the order of their keys.
use vstd::prelude::*;

use crate::text::{eq_ignore_ascii_case, less, same};
#[allow(unused_imports)]
use crate::text::{ascii_lower_text, text_less, text_less_total, text_less_transitive};

verus! {

/// The value that stands under `key`, the first where there are several.
pub open spec fn find<V>(entries: Seq<(Seq<char>, V)>, key: Seq<char>) -> Option<V>
    decreases entries.len(),
{
    if entries.len() == 0 {
        None
    } else if entries[0].0 == key {
        Some(entries[0].1)
    } else {
        find(entries.drop_first(), key)
    }
}

/// The entries with `value` under `key`: in place of the value that stood there,
/// or before the first key that comes after `key`.
pub open spec fn put<V>(entries: Seq<(Seq<char>, V)>, key: Seq<char>, value: V) -> Seq<
    (Seq<char>, V),
>
    decreases entries.len(),
{
    if entries.len() == 0 {
        seq![(key, value)]
    } else if entries[0].0 == key {
        seq![(key, value)] + entries.drop_first()
    } else if text_less(key, entries[0].0) {
        seq![(key, value)] + entries
    } else {
        seq![entries[0]] + put(entries.drop_first(), key, value)
    }
}

/// The entries with `value` under `key` where nothing stood there.
pub open spec fn put_if_absent<V>(
    entries: Seq<(Seq<char>, V)>,
    key: Seq<char>,
    value: V,
) -> Seq<(Seq<char>, V)> {
    if find(entries, key) is Some {
        entries
    } else {
        put(entries, key, value)
    }
}

/// Every key comes before the next one, so none stands twice.
pub open spec fn ordered<V>(entries: Seq<(Seq<char>, V)>) -> bool {
    forall|i: int, j: int|
        0 <= i < j < entries.len() ==> text_less(#[trigger] entries[i].0, #[trigger] entries[j].0)
}

/// Whether two names are the same but for the case of their ASCII letters.
pub open spec fn same_name(a: Seq<char>, b: Seq<char>) -> bool {
    ascii_lower_text(a) == ascii_lower_text(b)
}

/// The entries whose key is not `name`, in whatever case.
pub open spec fn without_named<V>(entries: Seq<(Seq<char>, V)>, name: Seq<char>) -> Seq<
    (Seq<char>, V),
>
    decreases entries.len(),
{
    if entries.len() == 0 {
        Seq::empty()
    } else if same_name(entries.last().0, name) {
        without_named(entries.drop_last(), name)
    } else {
        without_named(entries.drop_last(), name).push(entries.last())
    }
}

/// The first key that is `name`, in whatever case.
pub open spec fn key_named<V>(entries: Seq<(Seq<char>, V)>, name: Seq<char>) -> Option<Seq<char>>
    decreases entries.len(),
{
    if entries.len() == 0 {
        None
    } else if same_name(entries[0].0, name) {
        Some(entries[0].0)
    } else {
        key_named(entries.drop_first(), name)
    }
}

/// What remains without a name stood there before, stands in the same order, and
/// holds the name in no case.
pub proof fn without_named_keeps_order<V>(entries: Seq<(Seq<char>, V)>, name: Seq<char>)
    ensures
        ordered(entries) ==> ordered(without_named(entries, name)),
        forall|i: int|
            0 <= i < without_named(entries, name).len() ==> {
                let entry = #[trigger] without_named(entries, name)[i];
                entries.contains(entry) && !same_name(entry.0, name)
            },
    decreases entries.len(),
{
    if entries.len() > 0 {
        let earlier = entries.drop_last();
        let kept = without_named(earlier, name);
        let out = without_named(entries, name);
        without_named_keeps_order(earlier, name);
        assert forall|i: int| 0 <= i < out.len() implies entries.contains(#[trigger] out[i])
            && !same_name(out[i].0, name) by {
            if i < kept.len() {
                assert(out[i] == kept[i]);
                let j = choose|j: int| 0 <= j < earlier.len() && earlier[j] == kept[i];
                assert(entries[j] == out[i]);
            } else {
                assert(entries[entries.len() - 1] == out[i]);
            }
        }
        if ordered(entries) {
            assert(ordered(earlier)) by {
                assert forall|i: int, j: int| 0 <= i < j < earlier.len() implies text_less(
                    #[trigger] earlier[i].0,
                    #[trigger] earlier[j].0,
                ) by {
                    assert(text_less(entries[i].0, entries[j].0));
                }
            }
            assert forall|i: int, j: int| 0 <= i < j < out.len() implies text_less(
                #[trigger] out[i].0,
                #[trigger] out[j].0,
            ) by {
                if j < kept.len() {
                    assert(text_less(kept[i].0, kept[j].0));
                } else {
                    assert(out[i] == kept[i]);
                    let k = choose|k: int| 0 <= k < earlier.len() && earlier[k] == kept[i];
                    assert(text_less(entries[k].0, entries[entries.len() - 1].0));
                }
            }
        }
    }
}

/// What was put under a key is found under it, and what stands under the other
/// keys stays.
pub proof fn find_after_put<V>(
    entries: Seq<(Seq<char>, V)>,
    key: Seq<char>,
    value: V,
    other: Seq<char>,
)
    ensures
        find(put(entries, key, value), other) == if other == key {
            Some(value)
        } else {
            find(entries, other)
        },
    decreases entries.len(),
{
    let after = put(entries, key, value);
    if entries.len() == 0 {
        assert(after.drop_first() =~= entries);
        assert(find(after.drop_first(), other) == find(entries, other));
    } else if entries[0].0 == key {
        assert(after.drop_first() =~= entries.drop_first());
    } else if text_less(key, entries[0].0) {
        assert(after.drop_first() =~= entries);
    } else {
        find_after_put(entries.drop_first(), key, value, other);
        assert(after.drop_first() =~= put(entries.drop_first(), key, value));
    }
}

/// What stands under a key after another was put.
pub broadcast proof fn found_after_put<V>(
    entries: Seq<(Seq<char>, V)>,
    key: Seq<char>,
    value: V,
    other: Seq<char>,
)
    ensures
        #[trigger] find(put(entries, key, value), other) == if other == key {
            Some(value)
        } else {
            find(entries, other)
        },
{
    find_after_put(entries, key, value, other);
}

/// Putting a value under a key keeps the keys in order.
pub proof fn put_keeps_order<V>(entries: Seq<(Seq<char>, V)>, key: Seq<char>, value: V)
    requires
        ordered(entries),
    ensures
        ordered(put(entries, key, value)),
    decreases entries.len(),
{
    let after = put(entries, key, value);
    if entries.len() > 0 {
        text_less_total(key, entries[0].0);
        let rest = entries.drop_first();
        if entries[0].0 == key {
            assert forall|i: int, j: int| 0 <= i < j < after.len() implies text_less(
                #[trigger] after[i].0,
                #[trigger] after[j].0,
            ) by {
                assert(after[i].0 == entries[i].0 && after[j].0 == entries[j].0);
            }
        } else if text_less(key, entries[0].0) {
            assert forall|i: int, j: int| 0 <= i < j < after.len() implies text_less(
                #[trigger] after[i].0,
                #[trigger] after[j].0,
            ) by {
                assert(after[j] == entries[j - 1]);
                if i == 0 {
                    if j > 1 {
                        text_less_transitive(key, entries[0].0, entries[j - 1].0);
                    }
                } else {
                    assert(after[i] == entries[i - 1]);
                }
            }
        } else {
            let tail = put(rest, key, value);
            assert forall|i: int, j: int| 0 <= i < j < rest.len() implies text_less(
                #[trigger] rest[i].0,
                #[trigger] rest[j].0,
            ) by {
                assert(rest[i] == entries[i + 1] && rest[j] == entries[j + 1]);
            }
            put_keeps_order(rest, key, value);
            put_keys(rest, key, value);
            assert forall|i: int, j: int| 0 <= i < j < after.len() implies text_less(
                #[trigger] after[i].0,
                #[trigger] after[j].0,
            ) by {
                assert(after[j] == tail[j - 1]);
                if i > 0 {
                    assert(after[i] == tail[i - 1]);
                } else if tail[j - 1].0 != key {
                    let k = choose|k: int| 0 <= k < rest.len() && rest[k].0 == tail[j - 1].0;
                    assert(rest[k] == entries[k + 1]);
                }
            }
        }
    }
}

/// A key after `put` is the new one or one that stood there.
proof fn put_keys<V>(entries: Seq<(Seq<char>, V)>, key: Seq<char>, value: V)
    ensures
        forall|j: int|
            0 <= j < put(entries, key, value).len() ==> #[trigger] put(entries, key, value)[j].0
                == key || exists|k: int|
                0 <= k < entries.len() && (#[trigger] entries[k]).0 == put(entries, key, value)[j].0,
    decreases entries.len(),
{
    let after = put(entries, key, value);
    if entries.len() > 0 {
        let rest = entries.drop_first();
        if entries[0].0 != key && !text_less(key, entries[0].0) {
            put_keys(rest, key, value);
            let tail = put(rest, key, value);
            assert forall|j: int| 0 <= j < after.len() implies #[trigger] after[j].0 == key
                || exists|k: int|
                0 <= k < entries.len() && (#[trigger] entries[k]).0 == after[j].0 by {
                if j == 0 {
                    assert(entries[0].0 == after[0].0);
                } else {
                    assert(after[j] == tail[j - 1]);
                    if tail[j - 1].0 != key {
                        let k = choose|k: int| 0 <= k < rest.len() && (#[trigger] rest[k]).0
                            == tail[j - 1].0;
                        assert(entries[k + 1] == rest[k]);
                    }
                }
            }
        } else {
            assert forall|j: int| 0 <= j < after.len() implies #[trigger] after[j].0 == key
                || exists|k: int|
                0 <= k < entries.len() && (#[trigger] entries[k]).0 == after[j].0 by {
                if j > 0 {
                    if entries[0].0 == key {
                        assert(after[j] == entries[j]);
                    } else {
                        assert(after[j] == entries[j - 1]);
                    }
                }
            }
        }
    }
}

/// `put` at the place where the search for the key ends.
pub(crate) proof fn lemma_put_at<V>(
    entries: Seq<(Seq<char>, V)>,
    key: Seq<char>,
    value: V,
    at: int,
)
    requires
        0 <= at <= entries.len(),
        forall|j: int|
            0 <= j < at ==> (#[trigger] entries[j]).0 != key && !text_less(key, entries[j].0),
        at == entries.len() || entries[at].0 == key || text_less(key, entries[at].0),
    ensures
        put(entries, key, value) == if at < entries.len() && entries[at].0 == key {
            entries.update(at, (key, value))
        } else {
            entries.insert(at, (key, value))
        },
    decreases at,
{
    let after = put(entries, key, value);
    if at == 0 {
        if entries.len() == 0 {
            assert(after =~= entries.insert(0, (key, value)));
        } else if entries[0].0 == key {
            assert(after =~= entries.update(0, (key, value)));
        } else {
            assert(after =~= entries.insert(0, (key, value)));
        }
    } else {
        let rest = entries.drop_first();
        assert(entries[0].0 != key);
        assert forall|j: int| 0 <= j < at - 1 implies (#[trigger] rest[j]).0 != key && !text_less(
            key,
            rest[j].0,
        ) by {
            assert(rest[j] == entries[j + 1]);
        }
        lemma_put_at(rest, key, value, at - 1);
        if at < entries.len() && entries[at].0 == key {
            assert(after =~= entries.update(at, (key, value)));
        } else {
            assert(after =~= entries.insert(at, (key, value)));
        }
    }
}

/// A search that meets the key first at `at` finds what stands there.
pub(crate) proof fn lemma_find_at<V>(entries: Seq<(Seq<char>, V)>, key: Seq<char>, at: int)
    requires
        0 <= at <= entries.len(),
        forall|j: int| 0 <= j < at ==> (#[trigger] entries[j]).0 != key,
        at == entries.len() || entries[at].0 == key,
    ensures
        find(entries, key) == if at < entries.len() {
            Some(entries[at].1)
        } else {
            None
        },
    decreases at,
{
    if at > 0 {
        let rest = entries.drop_first();
        assert(entries[0].0 != key);
        assert forall|j: int| 0 <= j < at - 1 implies (#[trigger] rest[j]).0 != key by {
            assert(rest[j] == entries[j + 1]);
        }
        lemma_find_at(rest, key, at - 1);
    }
}

/// Texts under text keys, in the order of the keys.
#[derive(Debug, PartialEq, Eq)]
pub struct StringMap {
    entries: Vec<(String, String)>,
}

impl DeepView for StringMap {
    type V = Seq<(Seq<char>, Seq<char>)>;

    closed spec fn deep_view(&self) -> Seq<(Seq<char>, Seq<char>)> {
        self.entries.deep_view()
    }
}

impl Clone for StringMap {
    fn clone(&self) -> (copy: Self)
        ensures
            copy.deep_view() == self.deep_view(),
    {
        proof {
            use_type_invariant(self);
        }
        let mut entries: Vec<(String, String)> = Vec::new();
        for i in 0..self.entries.len()
            invariant
                entries@.len() == i,
                forall|k: int|
                    0 <= k < i ==> (#[trigger] entries@[k]).deep_view()
                        == self.entries@[k].deep_view(),
        {
            entries.push((self.entries[i].0.clone(), self.entries[i].1.clone()));
        }
        assert(entries.deep_view() =~= self.entries.deep_view());
        StringMap { entries }
    }
}

impl StringMap {
    #[verifier::type_invariant]
    spec fn well_formed(self) -> bool {
        ordered(self.entries.deep_view())
    }

    /// No entries.
    pub fn new() -> (out: Self)
        ensures
            out.deep_view() == Seq::<(Seq<char>, Seq<char>)>::empty(),
    {
        let entries: Vec<(String, String)> = Vec::new();
        assert(entries.deep_view() =~= Seq::empty());
        StringMap { entries }
    }

    /// The number of entries.
    pub fn len(&self) -> (n: usize)
        ensures
            n == self.deep_view().len(),
            ordered(self.deep_view()),
    {
        proof {
            use_type_invariant(self);
        }
        self.entries.len()
    }

    /// Whether there are no entries.
    pub fn is_empty(&self) -> (yes: bool)
        ensures
            yes == (self.deep_view().len() == 0),
    {
        self.entries.len() == 0
    }

    /// The key of the entry at a place.
    pub fn key(&self, at: usize) -> (key: &str)
        requires
            at < self.deep_view().len(),
        ensures
            key@ == self.deep_view()[at as int].0,
    {
        self.entries[at].0.as_str()
    }

    /// The value of the entry at a place.
    pub fn value(&self, at: usize) -> (value: &str)
        requires
            at < self.deep_view().len(),
        ensures
            value@ == self.deep_view()[at as int].1,
    {
        self.entries[at].1.as_str()
    }

    /// The value under a key.
    pub fn get(&self, key: &str) -> (value: Option<&str>)
        ensures
            value.deep_view() == find(self.deep_view(), key@),
    {
        let ghost all = self.deep_view();
        for i in 0..self.entries.len()
            invariant
                all == self.deep_view(),
                all.len() == self.entries@.len(),
                forall|j: int| 0 <= j < i ==> (#[trigger] all[j]).0 != key@,
        {
            if same(self.entries[i].0.as_str(), key) {
                proof {
                    assert(all[i as int].0 == key@);
                    lemma_find_at(all, key@, i as int);
                }
                return Some(self.entries[i].1.as_str());
            }
            assert(all[i as int].0 != key@);
        }
        proof {
            lemma_find_at(all, key@, all.len() as int);
        }
        None
    }

    /// Whether a value stands under a key.
    pub fn contains_key(&self, key: &str) -> (yes: bool)
        ensures
            yes == (find(self.deep_view(), key@) is Some),
    {
        self.get(key).is_some()
    }

    /// Puts a value under a key.
    pub fn insert(&mut self, key: &str, value: &str)
        ensures
            final(self).deep_view() == put(old(self).deep_view(), key@, value@),
    {
        proof {
            use_type_invariant(&*self);
        }
        let ghost all = self.deep_view();
        let mut entries: Vec<(String, String)> = Vec::new();
        assert(entries.deep_view() =~= Seq::empty());
        std::mem::swap(&mut entries, &mut self.entries);
        let mut at: usize = 0;
        while at < entries.len() && !same(entries[at].0.as_str(), key) && !less(
            key,
            entries[at].0.as_str(),
        )
            invariant
                at <= entries@.len(),
                all == entries.deep_view(),
                forall|j: int|
                    0 <= j < at ==> (#[trigger] all[j]).0 != key@ && !text_less(key@, all[j].0),
            decreases entries@.len() - at,
        {
            assert(all[at as int].0 == entries@[at as int].0@);
            at += 1;
        }
        proof {
            if at < entries@.len() {
                assert(all[at as int].0 == entries@[at as int].0@);
            }
            lemma_put_at(all, key@, value@, at as int);
            put_keeps_order(all, key@, value@);
        }
        let entry = (key.to_owned(), value.to_owned());
        if at < entries.len() && same(entries[at].0.as_str(), key) {
            entries[at] = entry;
            assert(entries.deep_view() =~= all.update(at as int, (key@, value@)));
        } else {
            entries.insert(at, entry);
            assert(entries.deep_view() =~= all.insert(at as int, (key@, value@)));
        }
        self.entries = entries;
    }

    /// Puts a value under a key where nothing stands there.
    pub fn insert_if_absent(&mut self, key: &str, value: &str)
        ensures
            final(self).deep_view() == put_if_absent(old(self).deep_view(), key@, value@),
    {
        if !self.contains_key(key) {
            self.insert(key, value);
        }
    }

    /// Takes out every entry whose key is `name`, in whatever case.
    pub fn remove_named(&mut self, name: &str)
        ensures
            final(self).deep_view() == without_named(old(self).deep_view(), name@),
    {
        proof {
            use_type_invariant(&*self);
        }
        let ghost all = self.deep_view();
        let mut kept: Vec<(String, String)> = Vec::new();
        assert(kept.deep_view() =~= Seq::empty());
        for i in 0..self.entries.len()
            invariant
                all == self.entries.deep_view(),
                kept.deep_view() == without_named(all.take(i as int), name@),
        {
            let ghost so_far = all.take(i as int + 1);
            assert(so_far.drop_last() =~= all.take(i as int));
            assert(so_far.last() == all[i as int]);
            assert(all[i as int].0 == self.entries@[i as int].0@);
            if !eq_ignore_ascii_case(self.entries[i].0.as_str(), name) {
                let ghost before = kept.deep_view();
                kept.push((self.entries[i].0.clone(), self.entries[i].1.clone()));
                assert(kept.deep_view() =~= before.push(all[i as int]));
            }
        }
        assert(all.take(all.len() as int) =~= all);
        proof {
            without_named_keeps_order(all, name@);
        }
        self.entries = kept;
    }

    /// The first key that is `name`, in whatever case.
    pub fn key_like(&self, name: &str) -> (key: Option<&str>)
        ensures
            key.deep_view() == key_named(self.deep_view(), name@),
    {
        let ghost all = self.deep_view();
        assert(all.skip(0) =~= all);
        for i in 0..self.entries.len()
            invariant
                all == self.entries.deep_view(),
                key_named(all, name@) == key_named(all.skip(i as int), name@),
        {
            let ghost rest = all.skip(i as int);
            assert(rest[0] == all[i as int]);
            assert(rest.drop_first() =~= all.skip(i as int + 1));
            assert(all[i as int].0 == self.entries@[i as int].0@);
            if eq_ignore_ascii_case(self.entries[i].0.as_str(), name) {
                return Some(self.entries[i].0.as_str());
            }
        }
        None
    }

    /// One entry.
    pub fn single(key: &str, value: &str) -> (out: Self)
        ensures
            out.deep_view() == seq![(key@, value@)],
    {
        let mut out = StringMap::new();
        out.insert(key, value);
        assert(out.deep_view() =~= seq![(key@, value@)]);
        out
    }
}

/// The texts with one more among them, in order, each once.
pub open spec fn include_text(texts: Seq<Seq<char>>, text: Seq<char>) -> Seq<Seq<char>>
    decreases texts.len(),
{
    if texts.len() == 0 {
        seq![text]
    } else if texts[0] == text {
        texts
    } else if text_less(text, texts[0]) {
        seq![text] + texts
    } else {
        seq![texts[0]] + include_text(texts.drop_first(), text)
    }
}

/// The texts in order, each once.
pub open spec fn sorted_texts(texts: Seq<Seq<char>>) -> Seq<Seq<char>>
    decreases texts.len(),
{
    if texts.len() == 0 {
        Seq::empty()
    } else {
        include_text(sorted_texts(texts.drop_last()), texts.last())
    }
}

/// Every text comes before the next one.
pub open spec fn increasing(texts: Seq<Seq<char>>) -> bool {
    forall|i: int, j: int|
        0 <= i < j < texts.len() ==> text_less(#[trigger] texts[i], #[trigger] texts[j])
}

proof fn lemma_include_at(texts: Seq<Seq<char>>, text: Seq<char>, at: int)
    requires
        0 <= at <= texts.len(),
        forall|j: int| 0 <= j < at ==> #[trigger] texts[j] != text && !text_less(text, texts[j]),
        at == texts.len() || texts[at] == text || text_less(text, texts[at]),
    ensures
        include_text(texts, text) == if at < texts.len() && texts[at] == text {
            texts
        } else {
            texts.insert(at, text)
        },
    decreases at,
{
    let after = include_text(texts, text);
    if at == 0 {
        if texts.len() == 0 || texts[0] != text {
            assert(after =~= texts.insert(0, text));
        }
    } else {
        let rest = texts.drop_first();
        assert(texts[0] != text);
        assert forall|j: int| 0 <= j < at - 1 implies #[trigger] rest[j] != text && !text_less(
            text,
            rest[j],
        ) by {
            assert(rest[j] == texts[j + 1]);
        }
        lemma_include_at(rest, text, at - 1);
        if at < texts.len() && texts[at] == text {
            assert(after =~= texts);
        } else {
            assert(after =~= texts.insert(at, text));
        }
    }
}

/// Adds a text to texts in order.
pub fn add_text(texts: &mut Vec<String>, text: &str)
    ensures
        final(texts).deep_view() == include_text(old(texts).deep_view(), text@),
{
    let ghost all = texts.deep_view();
    let mut at: usize = 0;
    while at < texts.len() && !same(texts[at].as_str(), text) && !less(text, texts[at].as_str())
        invariant
            at <= texts@.len(),
            all == texts.deep_view(),
            forall|j: int| 0 <= j < at ==> #[trigger] all[j] != text@ && !text_less(text@, all[j]),
        decreases texts@.len() - at,
    {
        assert(all[at as int] == texts@[at as int]@);
        at += 1;
    }
    proof {
        if at < texts@.len() {
            assert(all[at as int] == texts@[at as int]@);
        }
        lemma_include_at(all, text@, at as int);
    }
    if !(at < texts.len() && same(texts[at].as_str(), text)) {
        texts.insert(at, text.to_owned());
        assert(texts.deep_view() =~= all.insert(at as int, text@));
    }
}

/// The texts in order, each once.
pub fn sort_texts(texts: &Vec<String>) -> (out: Vec<String>)
    ensures
        out.deep_view() == sorted_texts(texts.deep_view()),
{
    let ghost all = texts.deep_view();
    let mut out: Vec<String> = Vec::new();
    assert(out.deep_view() =~= Seq::<Seq<char>>::empty());
    assert(all.take(0) =~= Seq::<Seq<char>>::empty());
    for i in 0..texts.len()
        invariant
            all == texts.deep_view(),
            out.deep_view() == sorted_texts(all.take(i as int)),
    {
        assert(all.take(i + 1).drop_last() == all.take(i as int));
        add_text(&mut out, texts[i].as_str());
    }
    assert(all.take(all.len() as int) == all);
    out
}

proof fn lemma_include_members(texts: Seq<Seq<char>>, text: Seq<char>)
    ensures
        forall|x: Seq<char>|
            #[trigger] include_text(texts, text).contains(x) <==> (x == text || texts.contains(x)),
    decreases texts.len(),
{
    let after = include_text(texts, text);
    if texts.len() == 0 {
        assert(after[0] == text);
    } else {
        let rest = texts.drop_first();
        if texts[0] == text {
            assert(texts.contains(text));
        } else if text_less(text, texts[0]) {
            assert(after[0] == text);
            assert forall|x: Seq<char>| #[trigger] after.contains(x) <==> (x == text
                || texts.contains(x)) by {
                if after.contains(x) && x != text {
                    let k = choose|k: int| 0 <= k < after.len() && after[k] == x;
                    assert(texts[k - 1] == x);
                }
                if texts.contains(x) {
                    let k = choose|k: int| 0 <= k < texts.len() && texts[k] == x;
                    assert(after[k + 1] == x);
                }
            }
        } else {
            lemma_include_members(rest, text);
            let tail = include_text(rest, text);
            assert forall|x: Seq<char>| #[trigger] after.contains(x) <==> (x == text
                || texts.contains(x)) by {
                assert(tail.contains(x) <==> (x == text || rest.contains(x)));
                if after.contains(x) {
                    let k = choose|k: int| 0 <= k < after.len() && after[k] == x;
                    if k == 0 {
                        assert(texts[0] == x);
                    } else {
                        assert(tail[k - 1] == x);
                        if rest.contains(x) {
                            let m = choose|m: int| 0 <= m < rest.len() && rest[m] == x;
                            assert(texts[m + 1] == x);
                        }
                    }
                }
                if x == text || texts.contains(x) {
                    if texts[0] == x {
                        assert(after[0] == x);
                    } else {
                        if texts.contains(x) {
                            let k = choose|k: int| 0 <= k < texts.len() && texts[k] == x;
                            assert(rest[k - 1] == x);
                        }
                        let m = choose|m: int| 0 <= m < tail.len() && tail[m] == x;
                        assert(after[m + 1] == x);
                    }
                }
            }
        }
    }
}

proof fn lemma_include_increasing(texts: Seq<Seq<char>>, text: Seq<char>)
    requires
        increasing(texts),
    ensures
        increasing(include_text(texts, text)),
    decreases texts.len(),
{
    let after = include_text(texts, text);
    if texts.len() > 0 && texts[0] != text {
        let rest = texts.drop_first();
        text_less_total(text, texts[0]);
        if text_less(text, texts[0]) {
            assert forall|i: int, j: int| 0 <= i < j < after.len() implies text_less(
                #[trigger] after[i],
                #[trigger] after[j],
            ) by {
                assert(after[j] == texts[j - 1]);
                if i > 0 {
                    assert(after[i] == texts[i - 1]);
                } else if j > 1 {
                    text_less_transitive(text, texts[0], texts[j - 1]);
                }
            }
        } else {
            assert forall|i: int, j: int| 0 <= i < j < rest.len() implies text_less(
                #[trigger] rest[i],
                #[trigger] rest[j],
            ) by {
                assert(rest[i] == texts[i + 1] && rest[j] == texts[j + 1]);
            }
            lemma_include_increasing(rest, text);
            lemma_include_members(rest, text);
            let tail = include_text(rest, text);
            assert forall|i: int, j: int| 0 <= i < j < after.len() implies text_less(
                #[trigger] after[i],
                #[trigger] after[j],
            ) by {
                assert(after[j] == tail[j - 1]);
                if i > 0 {
                    assert(after[i] == tail[i - 1]);
                } else {
                    assert(tail.contains(tail[j - 1]));
                    if tail[j - 1] != text {
                        let k = choose|k: int| 0 <= k < rest.len() && rest[k] == tail[j - 1];
                        assert(texts[k + 1] == rest[k]);
                    }
                }
            }
        }
    }
}

/// Sorting keeps the texts that there are, adds none, and puts every text before
/// the next one.
pub proof fn sorted_texts_are_the_texts_in_order(texts: Seq<Seq<char>>)
    ensures
        increasing(sorted_texts(texts)),
        forall|x: Seq<char>| #[trigger] sorted_texts(texts).contains(x) <==> texts.contains(x),
    decreases texts.len(),
{
    if texts.len() > 0 {
        let before = texts.drop_last();
        sorted_texts_are_the_texts_in_order(before);
        lemma_include_increasing(sorted_texts(before), texts.last());
        lemma_include_members(sorted_texts(before), texts.last());
        assert forall|x: Seq<char>| #[trigger] sorted_texts(texts).contains(x)
            <==> texts.contains(x) by {
            assert(sorted_texts(before).contains(x) <==> before.contains(x));
            if texts.contains(x) {
                let k = choose|k: int| 0 <= k < texts.len() && texts[k] == x;
                if k < before.len() {
                    assert(before[k] == x);
                }
            }
            if before.contains(x) {
                let k = choose|k: int| 0 <= k < before.len() && before[k] == x;
                assert(texts[k] == x);
            }
            assert(texts[texts.len() - 1] == texts.last());
        }
    }
}

} // verus!
