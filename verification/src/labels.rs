//! Label sets: the dimension key/value pairs identifying one time series.
//!
//! A `LabelSet` is an ordered list of key/value string pairs with pairwise
//! distinct keys. Its identity is the key-to-value mapping alone: two label
//! sets built in different insertion orders denote the same series. The
//! stored order is kept only so that exported attributes come out in a
//! reproducible order.

use vstd::prelude::*;

verus! {

/// One dimension key/value pair.
#[derive(Debug)]
pub struct Label {
    pub key: String,
    pub value: String,
}

impl View for Label {
    type V = (Seq<char>, Seq<char>);

    open spec fn view(&self) -> (Seq<char>, Seq<char>) {
        (self.key@, self.value@)
    }
}

/// The key-to-value mapping denoted by a sequence of pairs; a later pair
/// with the same key wins.
pub open spec fn label_map(s: Seq<(Seq<char>, Seq<char>)>) -> Map<Seq<char>, Seq<char>>
    decreases s.len(),
{
    if s.len() == 0 {
        Map::empty()
    } else {
        label_map(s.drop_last()).insert(s.last().0, s.last().1)
    }
}

/// Whether the keys of the pairs are pairwise distinct.
pub open spec fn keys_distinct(s: Seq<(Seq<char>, Seq<char>)>) -> bool {
    forall|i: int, j: int| 0 <= i < j < s.len() ==> s[i].0 != s[j].0
}

/// The first position holding the key, if any.
pub open spec fn find_key(s: Seq<(Seq<char>, Seq<char>)>, key: Seq<char>) -> Option<int>
    decreases s.len(),
{
    if s.len() == 0 {
        None
    } else if s[0].0 == key {
        Some(0int)
    } else {
        match find_key(s.drop_first(), key) {
            Some(i) => Some(i + 1),
            None => None,
        }
    }
}

/// `label_map` holds exactly the keys that occur in the sequence.
pub proof fn lemma_label_map_contains(s: Seq<(Seq<char>, Seq<char>)>, key: Seq<char>)
    ensures
        label_map(s).contains_key(key) <==> exists|i: int| 0 <= i < s.len() && s[i].0 == key,
    decreases s.len(),
{
    if s.len() > 0 {
        lemma_label_map_contains(s.drop_last(), key);
        if label_map(s).contains_key(key) {
            if s.last().0 != key {
                let i = choose|i: int| 0 <= i < s.drop_last().len() && s.drop_last()[i].0 == key;
                assert(s[i].0 == key);
            }
        }
        if exists|i: int| 0 <= i < s.len() && s[i].0 == key {
            let i = choose|i: int| 0 <= i < s.len() && s[i].0 == key;
            if i < s.len() - 1 {
                assert(s.drop_last()[i].0 == key);
            }
        }
    }
}

/// With distinct keys, the mapping takes each key to the value stored
/// beside it.
pub proof fn lemma_label_map_index(s: Seq<(Seq<char>, Seq<char>)>, i: int)
    requires
        keys_distinct(s),
        0 <= i < s.len(),
    ensures
        label_map(s).contains_key(s[i].0),
        label_map(s)[s[i].0] == s[i].1,
    decreases s.len(),
{
    lemma_label_map_contains(s, s[i].0);
    if i < s.len() - 1 {
        assert(keys_distinct(s.drop_last()));
        assert(s.drop_last()[i] == s[i]);
        lemma_label_map_index(s.drop_last(), i);
        assert(s.last().0 != s[i].0);
    }
}

/// Updating the pair that holds a key denotes the same mapping as inserting
/// the new value for that key.
pub proof fn lemma_label_map_update(s: Seq<(Seq<char>, Seq<char>)>, i: int, v: Seq<char>)
    requires
        keys_distinct(s),
        0 <= i < s.len(),
    ensures
        label_map(s.update(i, (s[i].0, v))) =~= label_map(s).insert(s[i].0, v),
    decreases s.len(),
{
    let key = s[i].0;
    let t = s.update(i, (key, v));
    if i == s.len() - 1 {
        assert(t.drop_last() =~= s.drop_last());
    } else {
        assert(t.drop_last() =~= s.drop_last().update(i, (key, v)));
        assert(keys_distinct(s.drop_last()));
        assert(s.drop_last()[i] == s[i]);
        lemma_label_map_update(s.drop_last(), i, v);
        assert(s.last().0 != key);
    }
}

/// The pair views of a sequence of labels.
pub open spec fn labels_view(es: Seq<Label>) -> Seq<(Seq<char>, Seq<char>)> {
    es.map_values(|l: Label| l@)
}

/// An ordered set of labels with pairwise distinct keys.
#[derive(Debug)]
pub struct LabelSet {
    entries: Vec<Label>,
}

impl View for LabelSet {
    type V = Seq<(Seq<char>, Seq<char>)>;

    closed spec fn view(&self) -> Seq<(Seq<char>, Seq<char>)> {
        labels_view(self.entries@)
    }
}

impl LabelSet {
    /// Well-formedness: no two entries share a key.
    pub open spec fn wf(&self) -> bool {
        keys_distinct(self@)
    }

    /// The key-to-value mapping this label set denotes.
    pub open spec fn map_view(&self) -> Map<Seq<char>, Seq<char>> {
        label_map(self@)
    }

    /// An empty label set.
    pub fn new() -> (r: LabelSet)
        ensures
            r@ == Seq::<(Seq<char>, Seq<char>)>::empty(),
            r.wf(),
    {
        let r = LabelSet { entries: Vec::new() };
        assert(r@ =~= Seq::<(Seq<char>, Seq<char>)>::empty());
        r
    }

    /// Number of labels.
    pub fn len(&self) -> (r: usize)
        ensures
            r == self@.len(),
    {
        self.entries.len()
    }

    /// The key of the label at a position.
    pub fn key_at(&self, i: usize) -> (r: &String)
        requires
            i < self@.len(),
        ensures
            r@ == self@[i as int].0,
    {
        &self.entries[i].key
    }

    /// The value of the label at a position.
    pub fn value_at(&self, i: usize) -> (r: &String)
        requires
            i < self@.len(),
        ensures
            r@ == self@[i as int].1,
    {
        &self.entries[i].value
    }

    /// Sets the value for a key: overwrites the entry holding the key, or
    /// appends a new entry if the key is not present yet.
    pub fn set(&mut self, key: String, value: String)
        requires
            old(self).wf(),
        ensures
            final(self).wf(),
            final(self).map_view() == old(self).map_view().insert(key@, value@),
            match find_key(old(self)@, key@) {
                Some(i) => final(self)@ == old(self)@.update(i, (key@, value@)),
                None => final(self)@ == old(self)@.push((key@, value@)),
            },
    {
        let ghost s = self@;
        let ghost kv = key@;
        let ghost vv = value@;
        let n = self.entries.len();
        let mut i: usize = 0;
        while i < n
            invariant
                old(self)@ == s,
                kv == key@,
                vv == value@,
                n == s.len(),
                self@ == s,
                self.wf(),
                0 <= i <= n,
                forall|j: int| 0 <= j < i ==> s[j].0 != key@,
            decreases n - i,
        {
            if self.entries[i].key == key {
                proof {
                    lemma_find_key_at(s, kv, i as int);
                }
                self.entries[i] = Label { key, value };
                proof {
                    assert(s[i as int].0 == kv);
                    assert(self@ =~= s.update(i as int, (kv, vv)));
                    lemma_label_map_update(s, i as int, vv);
                    assert(label_map(self@) =~= label_map(s).insert(kv, vv));
                    assert(forall|p: int, q: int|
                        0 <= p < q < self@.len() ==> self@[p].0 == s[p].0 && self@[q].0 == s[q].0);
                }
                return ;
            }
            i += 1;
        }
        proof {
            lemma_find_key_none(s, kv);
        }
        self.entries.push(Label { key, value });
        proof {
            assert(self@ =~= s.push((kv, vv)));
            assert(self@.drop_last() =~= s);
            assert(forall|p: int| 0 <= p < s.len() ==> self@[p] == s[p]);
        }
    }

    /// An independent copy denoting the same labels in the same order.
    pub fn duplicate(&self) -> (r: LabelSet)
        ensures
            r@ == self@,
    {
        let n = self.entries.len();
        let mut entries: Vec<Label> = Vec::new();
        let mut i: usize = 0;
        while i < n
            invariant
                n == self@.len(),
                n == self.entries@.len(),
                self@ == labels_view(self.entries@),
                0 <= i <= n,
                entries@.len() == i,
                labels_view(entries@) =~= self@.take(i as int),
            decreases n - i,
        {
            let ghost prev = entries@;
            entries.push(
                Label { key: self.entries[i].key.clone(), value: self.entries[i].value.clone() },
            );
            proof {
                let e1 = entries@;
                assert forall|k: int| 0 <= k < i + 1 implies labels_view(e1)[k] == self@.take(
                    i + 1,
                )[k] by {
                    if k < i {
                        assert(e1[k] == prev[k]);
                        assert(labels_view(prev)[k] == self@.take(i as int)[k]);
                    } else {
                        assert(e1[k]@ == self.entries@[i as int]@);
                        assert(self@[k] == labels_view(self.entries@)[k]);
                    }
                }
                assert(labels_view(e1) =~= self@.take(i + 1));
            }
            i += 1;
        }
        let r = LabelSet { entries };
        proof {
            assert(self@.take(n as int) =~= self@);
        }
        r
    }

    /// Whether this label set maps the key to the value.
    pub fn has_pair(&self, key: &String, value: &String) -> (r: bool)
        requires
            self.wf(),
        ensures
            r == (self.map_view().contains_key(key@) && self.map_view()[key@] == value@),
    {
        let ghost s = self@;
        let n = self.entries.len();
        let mut i: usize = 0;
        while i < n
            invariant
                n == s.len(),
                self@ == s,
                self.wf(),
                0 <= i <= n,
                forall|j: int| 0 <= j < i ==> s[j].0 != key@,
            decreases n - i,
        {
            if self.entries[i].key == *key {
                proof {
                    lemma_label_map_index(s, i as int);
                }
                return self.entries[i].value == *value;
            }
            i += 1;
        }
        proof {
            lemma_label_map_contains(s, key@);
        }
        false
    }

    /// Whether the two label sets denote the same key-to-value mapping,
    /// whatever their stored orders.
    pub fn same_labels(&self, other: &LabelSet) -> (r: bool)
        requires
            self.wf(),
            other.wf(),
        ensures
            r == (self.map_view() == other.map_view()),
    {
        let n = self.entries.len();
        let m = other.entries.len();
        let mut i: usize = 0;
        while i < n
            invariant
                n == self@.len(),
                self.wf(),
                other.wf(),
                0 <= i <= n,
                forall|j: int| 0 <= j < i ==> other.map_view().contains_key(self@[j].0)
                    && other.map_view()[self@[j].0] == self@[j].1,
            decreases n - i,
        {
            proof {
                lemma_label_map_index(self@, i as int);
            }
            if !other.has_pair(&self.entries[i].key, &self.entries[i].value) {
                proof {
                    assert(self.map_view().contains_key(self@[i as int].0));
                    assert(self.map_view()[self@[i as int].0] == self@[i as int].1);
                }
                return false;
            }
            i += 1;
        }
        let mut k: usize = 0;
        while k < m
            invariant
                m == other@.len(),
                n == self@.len(),
                self.wf(),
                other.wf(),
                0 <= k <= m,
                forall|j: int| 0 <= j < n ==> other.map_view().contains_key(self@[j].0)
                    && other.map_view()[self@[j].0] == self@[j].1,
                forall|j: int| 0 <= j < k ==> self.map_view().contains_key(other@[j].0)
                    && self.map_view()[other@[j].0] == other@[j].1,
            decreases m - k,
        {
            proof {
                lemma_label_map_index(other@, k as int);
            }
            if !self.has_pair(&other.entries[k].key, &other.entries[k].value) {
                proof {
                    assert(other.map_view().contains_key(other@[k as int].0));
                    assert(other.map_view()[other@[k as int].0] == other@[k as int].1);
                }
                return false;
            }
            k += 1;
        }
        proof {
            lemma_maps_agree(self@, other@);
        }
        true
    }
}

/// If every pair of each sequence is mapped the same way by the other, the
/// two mappings are equal.
proof fn lemma_maps_agree(a: Seq<(Seq<char>, Seq<char>)>, b: Seq<(Seq<char>, Seq<char>)>)
    requires
        keys_distinct(a),
        keys_distinct(b),
        forall|j: int| 0 <= j < a.len() ==> label_map(b).contains_key(a[j].0)
            && label_map(b)[a[j].0] == a[j].1,
        forall|j: int| 0 <= j < b.len() ==> label_map(a).contains_key(b[j].0)
            && label_map(a)[b[j].0] == b[j].1,
    ensures
        label_map(a) == label_map(b),
{
    let ma = label_map(a);
    let mb = label_map(b);
    assert forall|k: Seq<char>| #[trigger] ma.dom().contains(k) implies mb.dom().contains(k)
        && ma[k] == mb[k] by {
        lemma_label_map_contains(a, k);
        let i = choose|i: int| 0 <= i < a.len() && a[i].0 == k;
        lemma_label_map_index(a, i);
    }
    assert forall|k: Seq<char>| #[trigger] mb.dom().contains(k) implies ma.dom().contains(k) by {
        lemma_label_map_contains(b, k);
        let i = choose|i: int| 0 <= i < b.len() && b[i].0 == k;
        lemma_label_map_index(b, i);
    }
    assert(ma.dom() =~= mb.dom());
    assert(ma =~= mb);
}

/// If a key occurs first at position `i`, `find_key` says so.
proof fn lemma_find_key_at(s: Seq<(Seq<char>, Seq<char>)>, key: Seq<char>, i: int)
    requires
        0 <= i < s.len(),
        s[i].0 == key,
        forall|j: int| 0 <= j < i ==> s[j].0 != key,
    ensures
        find_key(s, key) == Some(i),
    decreases s.len(),
{
    if i > 0 {
        assert(forall|j: int| 0 <= j < i - 1 ==> s.drop_first()[j].0 != key);
        assert(s.drop_first()[i - 1].0 == key);
        lemma_find_key_at(s.drop_first(), key, i - 1);
    }
}

/// If a key occurs nowhere, `find_key` finds nothing.
proof fn lemma_find_key_none(s: Seq<(Seq<char>, Seq<char>)>, key: Seq<char>)
    requires
        forall|j: int| 0 <= j < s.len() ==> s[j].0 != key,
    ensures
        find_key(s, key) is None,
    decreases s.len(),
{
    if s.len() > 0 {
        assert(forall|j: int| 0 <= j < s.len() - 1 ==> s.drop_first()[j].0 != key);
        lemma_find_key_none(s.drop_first(), key);
    }
}

} // verus!
