//! Maps from texts to texts.
use vstd::prelude::*;
use crate::text;

verus! {

/// A map from texts to texts. The entries come out in the order of their keys.
#[derive(Debug, PartialEq)]
pub struct TextMap {
    entries: Vec<(String, String)>,
}

/// What a row of pairs holds.
pub open spec fn pair_texts(pairs: Seq<(String, String)>) -> Seq<(Seq<char>, Seq<char>)> {
    Seq::new(pairs.len(), |i: int| (pairs[i].0@, pairs[i].1@))
}

/// The key stands in the row at place `i`.
pub open spec fn stands_at(pairs: Seq<(Seq<char>, Seq<char>)>, key: Seq<char>, i: int) -> bool {
    0 <= i < pairs.len() && pairs[i].0 == key
}

/// Whether the key stands in the row.
pub open spec fn has_key(pairs: Seq<(Seq<char>, Seq<char>)>, key: Seq<char>) -> bool {
    exists|i: int| stands_at(pairs, key, i)
}

/// The map that a row with distinct keys stands for.
pub open spec fn as_map(pairs: Seq<(Seq<char>, Seq<char>)>) -> Map<Seq<char>, Seq<char>> {
    Map::new(
        |key: Seq<char>| has_key(pairs, key),
        |key: Seq<char>| pairs[choose|i: int| stands_at(pairs, key, i)].1,
    )
}

/// The keys of the row ascend.
pub open spec fn ascending(pairs: Seq<(Seq<char>, Seq<char>)>) -> bool {
    forall|i: int, j: int|
        0 <= i < j < pairs.len() ==> text::comes_before(
            (#[trigger] pairs[i]).0,
            (#[trigger] pairs[j]).0,
        )
}

proof fn lemma_place_is_unique(pairs: Seq<(Seq<char>, Seq<char>)>, key: Seq<char>, i: int)
    requires
        ascending(pairs),
        stands_at(pairs, key, i),
    ensures
        as_map(pairs).contains_key(key),
        as_map(pairs)[key] == pairs[i].1,
{
    let j = choose|j: int| stands_at(pairs, key, j);
    if j != i {
        text::lemma_before_irreflexive(key);
        if i < j {
            assert(text::comes_before(pairs[i].0, pairs[j].0));
        } else {
            assert(text::comes_before(pairs[j].0, pairs[i].0));
        }
    }
}

impl View for TextMap {
    type V = Map<Seq<char>, Seq<char>>;

    closed spec fn view(&self) -> Map<Seq<char>, Seq<char>> {
        as_map(pair_texts(self.entries@))
    }
}

impl TextMap {
    #[verifier::type_invariant]
    spec fn ordered(self) -> bool {
        ascending(pair_texts(self.entries@))
    }

    /// The entries in the order of their keys.
    pub closed spec fn listing(self) -> Seq<(Seq<char>, Seq<char>)> {
        pair_texts(self.entries@)
    }

    /// The empty map.
    pub fn new() -> (r: TextMap)
        ensures
            r@ == Map::<Seq<char>, Seq<char>>::empty(),
            r.listing() == Seq::<(Seq<char>, Seq<char>)>::empty(),
    {
        let r = TextMap { entries: Vec::new() };
        assert(r@ =~= Map::empty());
        assert(r.listing() =~= Seq::empty());
        r
    }

    /// The entries, in the order of their keys.
    pub fn entries(&self) -> (r: &Vec<(String, String)>)
        ensures
            pair_texts(r@) == self.listing(),
            as_map(self.listing()) == self@,
            ascending(self.listing()),
    {
        proof {
            use_type_invariant(&*self);
        }
        &self.entries
    }

    /// The place of the first entry whose key does not come before `key`.
    fn place(&self, key: &str) -> (r: usize)
        ensures
            r <= self.entries@.len(),
            forall|i: int|
                0 <= i < r ==> text::comes_before(#[trigger] pair_texts(self.entries@)[i].0, key@),
            r < self.entries@.len() ==> !text::comes_before(pair_texts(self.entries@)[r as int].0, key@),
    {
        let mut i: usize = 0;
        while i < self.entries.len()
            invariant
                i <= self.entries@.len(),
                forall|j: int|
                    0 <= j < i ==> text::comes_before(
                        #[trigger] pair_texts(self.entries@)[j].0,
                        key@,
                    ),
            decreases self.entries@.len() - i,
        {
            if !text::is_before(&self.entries[i].0, key) {
                return i;
            }
            i += 1;
        }
        i
    }

    /// The value of `key`.
    pub fn get(&self, key: &str) -> (r: Option<&String>)
        ensures
            match r {
                Some(v) => self@.contains_key(key@) && v@ == self@[key@],
                None => !self@.contains_key(key@),
            },
    {
        proof {
            use_type_invariant(&*self);
        }
        let ghost pairs = pair_texts(self.entries@);
        let i = self.place(key);
        if i < self.entries.len() && text::same(&self.entries[i].0, key) {
            proof {
                lemma_place_is_unique(pairs, key@, i as int);
            }
            return Some(&self.entries[i].1);
        }
        proof {
            lemma_absent(pairs, key@, i as int);
        }
        None
    }

    /// Sets the value of `key`.
    pub fn insert(&mut self, key: String, value: String)
        ensures
            final(self)@ == old(self)@.insert(key@, value@),
    {
        proof {
            use_type_invariant(&*self);
        }
        let i = self.place(&key);
        let ghost before = pair_texts(self.entries@);
        let ghost k = key@;
        let ghost v = value@;
        let replace = i < self.entries.len() && text::same(&self.entries[i].0, &key);
        let mut entries: Vec<(String, String)> = Vec::new();
        std::mem::swap(&mut entries, &mut self.entries);
        if replace {
            entries.set(i, (key, value));
            proof {
                let after = pair_texts(entries@);
                assert(after =~= before.update(i as int, (k, v)));
                assert(ascending(after)) by {
                    assert forall|a: int, b: int| 0 <= a < b < after.len() implies text::comes_before(
                        (#[trigger] after[a]).0,
                        (#[trigger] after[b]).0,
                    ) by {
                        assert(text::comes_before(before[a].0, before[b].0));
                    }
                }
                assert forall|x: Seq<char>| has_key(after, x) <==> (has_key(before, x) || x == k) by {
                    if has_key(before, x) {
                        let j = choose|j: int| stands_at(before, x, j);
                        assert(stands_at(after, x, j));
                    }
                    if has_key(after, x) {
                        let j = choose|j: int| stands_at(after, x, j);
                        assert(stands_at(before, x, j));
                    }
                    assert(stands_at(after, k, i as int));
                }
                assert forall|x: Seq<char>| has_key(after, x) implies as_map(after)[x] == (
                if x == k {
                    v
                } else {
                    as_map(before)[x]
                }) by {
                    let j = choose|j: int| stands_at(after, x, j);
                    lemma_place_is_unique(after, x, j);
                    if x == k {
                        lemma_place_is_unique(after, k, i as int);
                    } else {
                        assert(j != i);
                        assert(stands_at(before, x, j));
                        lemma_place_is_unique(before, x, j);
                    }
                }
                assert(as_map(after) =~= as_map(before).insert(k, v));
            }
        } else {
            entries.insert(i, (key, value));
            proof {
                let after = pair_texts(entries@);
                assert(after =~= before.insert(i as int, (k, v)));
                lemma_absent(before, k, i as int);
                assert forall|a: int| i <= a < before.len() implies text::comes_before(
                    k,
                    (#[trigger] before[a]).0,
                ) by {
                    text::lemma_before_total(before[i as int].0, k);
                    if a > i {
                        assert(text::comes_before(before[i as int].0, before[a].0));
                        text::lemma_before_transitive(k, before[i as int].0, before[a].0);
                    }
                }
                assert(ascending(after)) by {
                    assert forall|a: int, b: int| 0 <= a < b < after.len() implies text::comes_before(
                        (#[trigger] after[a]).0,
                        (#[trigger] after[b]).0,
                    ) by {
                        if a < i && b < i {
                            assert(text::comes_before(before[a].0, before[b].0));
                        } else if a < i && b == i {
                            assert(text::comes_before(before[a].0, k));
                        } else if a < i {
                            assert(text::comes_before(before[a].0, before[b - 1].0));
                        } else if a == i {
                            assert(text::comes_before(k, before[b - 1].0));
                        } else {
                            assert(text::comes_before(before[a - 1].0, before[b - 1].0));
                        }
                    }
                }
                assert forall|x: Seq<char>| has_key(after, x) <==> (has_key(before, x) || x == k) by {
                    if has_key(before, x) {
                        let j = choose|j: int| stands_at(before, x, j);
                        if j < i {
                            assert(stands_at(after, x, j));
                        } else {
                            assert(stands_at(after, x, j + 1));
                        }
                    }
                    if has_key(after, x) && x != k {
                        let j = choose|j: int| stands_at(after, x, j);
                        if j < i {
                            assert(stands_at(before, x, j));
                        } else {
                            assert(stands_at(before, x, j - 1));
                        }
                    }
                    assert(stands_at(after, k, i as int));
                }
                assert forall|x: Seq<char>| has_key(after, x) implies as_map(after)[x] == (
                if x == k {
                    v
                } else {
                    as_map(before)[x]
                }) by {
                    let j = choose|j: int| stands_at(after, x, j);
                    lemma_place_is_unique(after, x, j);
                    if x == k {
                        lemma_place_is_unique(after, k, i as int);
                    } else if j < i {
                        lemma_place_is_unique(before, x, j);
                    } else {
                        lemma_place_is_unique(before, x, j - 1);
                    }
                }
                assert(as_map(after) =~= as_map(before).insert(k, v));
            }
        }
        self.entries = entries;
    }
}

impl Clone for TextMap {
    fn clone(&self) -> (r: TextMap)
        ensures
            r@ == self@,
            r.listing() == self.listing(),
    {
        proof {
            use_type_invariant(&*self);
        }
        let mut entries: Vec<(String, String)> = Vec::new();
        for i in 0..self.entries.len()
            invariant
                pair_texts(entries@) == pair_texts(self.entries@).take(i as int),
        {
            let ghost done = pair_texts(entries@);
            entries.push((self.entries[i].0.clone(), self.entries[i].1.clone()));
            assert(pair_texts(entries@) =~= done.push(pair_texts(self.entries@)[i as int]));
            assert(pair_texts(self.entries@).take(i + 1) =~= done.push(
                pair_texts(self.entries@)[i as int],
            ));
        }
        assert(pair_texts(self.entries@).take(self.entries@.len() as int) =~= pair_texts(
            self.entries@,
        ));
        TextMap { entries }
    }
}

/// The pairs with each value that is `mark` replaced by the one that `previous` has for the
/// key, where it has one.
pub open spec fn restored_pairs(
    pairs: Seq<(Seq<char>, Seq<char>)>,
    previous: Map<Seq<char>, Seq<char>>,
    mark: Seq<char>,
) -> Seq<(Seq<char>, Seq<char>)> {
    Seq::new(
        pairs.len(),
        |i: int|
            (
                pairs[i].0,
                if pairs[i].1 == mark && previous.contains_key(pairs[i].0) {
                    previous[pairs[i].0]
                } else {
                    pairs[i].1
                },
            ),
    )
}

impl TextMap {
    /// The map with each value that is `mark` replaced by the one that `previous` has for the
    /// key, where it has one.
    pub fn restored(&self, previous: &TextMap, mark: &str) -> (r: TextMap)
        ensures
            r.listing() == restored_pairs(self.listing(), previous@, mark@),
    {
        proof {
            use_type_invariant(&*self);
        }
        let ghost want = restored_pairs(self.listing(), previous@, mark@);
        let mut entries: Vec<(String, String)> = Vec::new();
        for i in 0..self.entries.len()
            invariant
                want == restored_pairs(self.listing(), previous@, mark@),
                pair_texts(entries@) == want.take(i as int),
        {
            let ghost done = pair_texts(entries@);
            let key = &self.entries[i].0;
            let value = &self.entries[i].1;
            assert(self.listing()[i as int] == (key@, value@));
            let new: String = if text::same(value, mark) {
                match previous.get(key) {
                    Some(v) => v.clone(),
                    None => value.clone(),
                }
            } else {
                value.clone()
            };
            entries.push((key.clone(), new));
            assert(pair_texts(entries@) =~= done.push(want[i as int]));
            assert(want.take(i + 1) =~= done.push(want[i as int]));
        }
        assert(want.take(self.entries@.len() as int) =~= want);
        assert(ascending(want)) by {
            assert forall|a: int, b: int| 0 <= a < b < want.len() implies text::comes_before(
                (#[trigger] want[a]).0,
                (#[trigger] want[b]).0,
            ) by {
                assert(text::comes_before(self.listing()[a].0, self.listing()[b].0));
            }
        }
        TextMap { entries }
    }
}

proof fn lemma_absent(pairs: Seq<(Seq<char>, Seq<char>)>, key: Seq<char>, i: int)
    requires
        ascending(pairs),
        0 <= i <= pairs.len(),
        forall|j: int| 0 <= j < i ==> text::comes_before(#[trigger] pairs[j].0, key),
        i < pairs.len() ==> !text::comes_before(pairs[i].0, key) && pairs[i].0 != key,
    ensures
        !has_key(pairs, key),
{
    text::lemma_before_irreflexive(key);
    if has_key(pairs, key) {
        let j = choose|j: int| stands_at(pairs, key, j);
        if j > i {
            assert(text::comes_before(pairs[i].0, pairs[j].0));
        }
    }
}

/// Putting values back changes no key and no order: a value that is not the mark stays, and the
/// mark gives way to the value that was there before, where there was one.
pub proof fn law_restoring_puts_values_back(
    pairs: Seq<(Seq<char>, Seq<char>)>,
    previous: Map<Seq<char>, Seq<char>>,
    mark: Seq<char>,
    i: int,
)
    requires
        0 <= i < pairs.len(),
    ensures
        restored_pairs(pairs, previous, mark).len() == pairs.len(),
        restored_pairs(pairs, previous, mark)[i].0 == pairs[i].0,
        pairs[i].1 != mark ==> restored_pairs(pairs, previous, mark)[i].1 == pairs[i].1,
        pairs[i].1 == mark && previous.contains_key(pairs[i].0) ==> restored_pairs(
            pairs,
            previous,
            mark,
        )[i].1 == previous[pairs[i].0],
        pairs[i].1 == mark && !previous.contains_key(pairs[i].0) ==> restored_pairs(
            pairs,
            previous,
            mark,
        )[i].1 == mark,
{
}

/// The keys of a map ascend, so that none is there twice.
pub proof fn law_keys_ascend(pairs: Seq<(Seq<char>, Seq<char>)>, i: int, j: int)
    requires
        ascending(pairs),
        0 <= i < pairs.len(),
        0 <= j < pairs.len(),
    ensures
        i < j ==> text::comes_before(pairs[i].0, pairs[j].0),
        pairs[i].0 == pairs[j].0 ==> i == j,
{
    if i < j {
        text::lemma_before_irreflexive(pairs[i].0);
        assert(text::comes_before(pairs[i].0, pairs[j].0));
    }
    if j < i {
        text::lemma_before_irreflexive(pairs[i].0);
        assert(text::comes_before(pairs[j].0, pairs[i].0));
    }
}

} // verus!
