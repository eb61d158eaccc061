//! The argument map built by the tokenizer: one entry per distinct key,
//! stored as an association list with pairwise distinct keys and viewed
//! as a mathematical map from key characters to item models.

use vstd::prelude::*;
use crate::ArgsItem;
use crate::ItemModel;
use crate::fold_occurrence;
use crate::map_lookup;
use crate::spec_fold_occurrence;
use crate::strutil::str_eq;

verus! {

/// True when no two entries share a key.
pub open spec fn keys_unique(s: Seq<(String, ArgsItem)>) -> bool {
    forall|i: int, j: int| 0 <= i < j < s.len() ==> (#[trigger] s[i]).0@ != (#[trigger] s[j]).0@
}

/// The mathematical map denoted by an association list.
pub open spec fn map_of(s: Seq<(String, ArgsItem)>) -> Map<Seq<char>, ItemModel>
    decreases s.len(),
{
    if s.len() == 0 {
        Map::empty()
    } else {
        map_of(s.drop_last()).insert(s.last().0@, s.last().1@)
    }
}

/// An entry's key is in the map; with unique keys its value is the
/// entry's item, and a key with no entry is absent.
proof fn lemma_map_of_get(s: Seq<(String, ArgsItem)>, k: Seq<char>)
    ensures
        map_of(s).contains_key(k) <==> exists|i: int| 0 <= i < s.len() && (#[trigger] s[i]).0@
            == k,
        keys_unique(s) ==> forall|i: int|
            0 <= i < s.len() && (#[trigger] s[i]).0@ == k ==> map_of(s)[k] == s[i].1@,
    decreases s.len(),
{
    if s.len() > 0 {
        lemma_map_of_get(s.drop_last(), k);
        if map_of(s).contains_key(k) {
            if s.last().0@ == k {
                assert(s[s.len() - 1].0@ == k);
            } else {
                let i = choose|i: int|
                    0 <= i < s.drop_last().len() && (#[trigger] s.drop_last()[i]).0@ == k;
                assert(s[i].0@ == k);
            }
        }
        if exists|i: int| 0 <= i < s.len() && (#[trigger] s[i]).0@ == k {
            let i = choose|i: int| 0 <= i < s.len() && (#[trigger] s[i]).0@ == k;
            if i < s.len() - 1 {
                assert(s.drop_last()[i].0@ == k);
            }
        }
        if keys_unique(s) {
            assert(keys_unique(s.drop_last()));
            assert forall|i: int|
                0 <= i < s.len() && (#[trigger] s[i]).0@ == k implies map_of(s)[k] == s[i].1@ by {
                if i == s.len() - 1 {
                } else {
                    assert(s.drop_last()[i].0@ == k);
                    assert(s[i].0@ != s[s.len() - 1].0@);
                }
            }
        }
    }
}

/// Appending a fresh entry denotes an insertion.
proof fn lemma_map_of_push(s: Seq<(String, ArgsItem)>, key: String, item: ArgsItem)
    ensures
        map_of(s.push((key, item))) == map_of(s).insert(key@, item@),
{
    let t = s.push((key, item));
    assert(t.drop_last() =~= s);
    assert(t.last() == (key, item));
}

/// Removing the entry that holds `k` removes `k` from the map.
proof fn lemma_map_of_remove(s: Seq<(String, ArgsItem)>, i: int)
    requires
        keys_unique(s),
        0 <= i < s.len(),
    ensures
        map_of(s.remove(i)) == map_of(s).remove(s[i].0@),
    decreases s.len(),
{
    let k = s[i].0@;
    if i == s.len() - 1 {
        assert(s.remove(i) =~= s.drop_last());
        lemma_map_of_get(s.drop_last(), k);
        assert(forall|j: int|
            0 <= j < s.drop_last().len() ==> (#[trigger] s.drop_last()[j]).0@ != k);
        assert(!map_of(s.drop_last()).contains_key(k));
        assert(map_of(s.drop_last()).insert(k, s.last().1@).remove(k) =~= map_of(s.drop_last()));
    } else {
        let t = s.remove(i);
        assert(t.drop_last() =~= s.drop_last().remove(i));
        assert(keys_unique(s.drop_last()));
        lemma_map_of_remove(s.drop_last(), i);
        assert(s.drop_last()[i] == s[i]);
        assert(t.last() == s.last());
        assert(map_of(t) == map_of(s.drop_last()).remove(k).insert(s.last().0@, s.last().1@));
        assert(s.last().0@ != k);
        assert(map_of(s.drop_last()).remove(k).insert(s.last().0@, s.last().1@)
            =~= map_of(s.drop_last()).insert(s.last().0@, s.last().1@).remove(k));
    }
}

/// With unique keys the map has exactly one key per entry.
proof fn lemma_map_of_dom_len(s: Seq<(String, ArgsItem)>)
    requires
        keys_unique(s),
    ensures
        map_of(s).dom().finite(),
        map_of(s).dom().len() == s.len(),
    decreases s.len(),
{
    if s.len() > 0 {
        assert(keys_unique(s.drop_last()));
        lemma_map_of_dom_len(s.drop_last());
        let k = s.last().0@;
        lemma_map_of_get(s.drop_last(), k);
        assert(forall|j: int|
            0 <= j < s.drop_last().len() ==> (#[trigger] s.drop_last()[j]).0@ != k);
        assert(!map_of(s.drop_last()).contains_key(k));
        assert(map_of(s).dom() =~= map_of(s.drop_last()).dom().insert(k));
    }
}

/// The argument map: one item per distinct argument key.
pub struct ArgsMap {
    entries: Vec<(String, ArgsItem)>,
}

impl View for ArgsMap {
    type V = Map<Seq<char>, ItemModel>;

    closed spec fn view(&self) -> Map<Seq<char>, ItemModel> {
        map_of(self.entries@)
    }
}

impl ArgsMap {
    /// Well-formed: no two entries share a key. Constructors establish
    /// this and methods preserve it.
    pub closed spec fn wf(self) -> bool {
        keys_unique(self.entries@)
    }

    /// Makes an empty argument map.
    pub fn new() -> (r: ArgsMap)
        ensures
            r.wf(),
            r@ == Map::<Seq<char>, ItemModel>::empty(),
    {
        ArgsMap { entries: Vec::new() }
    }

    /// Number of distinct keys.
    pub fn len(&self) -> (n: usize)
        requires
            self.wf(),
        ensures
            self@.dom().finite(),
            n == self@.dom().len(),
    {
        proof {
            lemma_map_of_dom_len(self.entries@);
        }
        self.entries.len()
    }

    /// Looks up the item recorded for `key`.
    pub fn get(&self, key: &str) -> (r: Option<&ArgsItem>)
        requires
            self.wf(),
        ensures
            match r {
                Some(item) => self@.contains_key(key@) && item@ == self@[key@],
                None => !self@.contains_key(key@),
            },
    {
        let n = self.entries.len();
        let mut i: usize = 0;
        while i < n
            invariant
                0 <= i <= n,
                n == self.entries@.len(),
                keys_unique(self.entries@),
                forall|j: int| 0 <= j < i ==> (#[trigger] self.entries@[j]).0@ != key@,
            decreases n - i,
        {
            if str_eq(self.entries[i].0.as_str(), key) {
                proof {
                    lemma_map_of_get(self.entries@, key@);
                }
                return Some(&self.entries[i].1);
            }
            i = i + 1;
        }
        proof {
            lemma_map_of_get(self.entries@, key@);
        }
        None
    }

    /// Folds one occurrence of `key` into the map, following the
    /// transition table.
    pub fn insert_occurrence(&mut self, key: String, value: Option<String>)
        requires
            old(self).wf(),
            crate::can_fold_more(map_lookup(old(self)@, key@)),
        ensures
            final(self).wf(),
            final(self)@ == old(self)@.insert(
                key@,
                spec_fold_occurrence(map_lookup(old(self)@, key@), value.deep_view()),
            ),
    {
        let n = self.entries.len();
        let mut i: usize = 0;
        while i < n
            invariant
                0 <= i <= n,
                *self == *old(self),
                crate::can_fold_more(map_lookup(old(self)@, key@)),
                n == self.entries@.len(),
                keys_unique(self.entries@),
                forall|j: int| 0 <= j < i ==> (#[trigger] self.entries@[j]).0@ != key@,
        decreases n - i,
        {
            if str_eq(self.entries[i].0.as_str(), key.as_str()) {
                let ghost pre = self.entries@;
                proof {
                    lemma_map_of_get(pre, key@);
                    assert(pre[i as int].0@ == key@);
                    assert(map_of(pre).contains_key(key@));
                    assert(map_of(pre)[key@] == pre[i as int].1@);
                    lemma_map_of_remove(pre, i as int);
                }
                let (found_key, old_item) = self.entries.remove(i);
                proof {
                    assert(old_item@ == map_of(pre)[key@]);
                    assert(map_lookup(old(self)@, key@) == Some(old_item@));
                    assert(crate::can_fold_more(Some(old_item@)));
                }
                let folded = fold_occurrence(Some(old_item), value);
                proof {
                    lemma_map_of_push(self.entries@, found_key, folded);
                    assert(keys_unique(self.entries@));
                }
                self.entries.push((found_key, folded));
                proof {
                    assert forall|a: int, b: int|
                        0 <= a < b < self.entries@.len() implies (#[trigger] self.entries@[a]).0@
                        != (#[trigger] self.entries@[b]).0@ by {
                        if b == self.entries@.len() - 1 {
                            assert(self.entries@[a] == pre.remove(i as int)[a]);
                        }
                    }
                    assert(self@ == map_of(pre).remove(key@).insert(key@, folded@));
                    assert(map_of(pre).remove(key@).insert(key@, folded@) =~= map_of(pre).insert(
                        key@,
                        folded@,
                    ));
                    assert(self@ == old(self)@.insert(
                        key@,
                        spec_fold_occurrence(map_lookup(old(self)@, key@), value.deep_view()),
                    ));
                }
                return ;
            }
            i = i + 1;
        }
        proof {
            lemma_map_of_get(self.entries@, key@);
            assert(!map_of(self.entries@).contains_key(key@));
        }
        let item = fold_occurrence(None, value);
        proof {
            lemma_map_of_push(self.entries@, key, item);
        }
        let ghost pre = self.entries@;
        self.entries.push((key, item));
        proof {
            assert forall|a: int, b: int|
                0 <= a < b < self.entries@.len() implies (#[trigger] self.entries@[a]).0@
                != (#[trigger] self.entries@[b]).0@ by {
                if b == self.entries@.len() - 1 {
                    assert(self.entries@[a] == pre[a]);
                }
            }
        }
    }
}

} // verus!
