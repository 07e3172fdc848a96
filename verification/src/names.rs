//! Sets of model names.
use vstd::prelude::*;
use crate::text;

verus! {

/// A set of names. The names come out in the order in which they first went in.
#[derive(Debug)]
pub struct NameSet {
    names: Vec<String>,
}

impl View for NameSet {
    type V = Set<Seq<char>>;

    closed spec fn view(&self) -> Set<Seq<char>> {
        text::texts(self.names@).to_set()
    }
}

impl NameSet {
    /// No name is held twice.
    #[verifier::type_invariant]
    spec fn distinct(self) -> bool {
        text::texts(self.names@).no_duplicates()
    }

    /// The empty set.
    pub fn new() -> (r: NameSet)
        ensures
            r@ == Set::<Seq<char>>::empty(),
    {
        let r = NameSet { names: Vec::new() };
        assert(r@ =~= Set::empty());
        r
    }

    /// The names of the set, each once.
    pub fn items(&self) -> (r: &Vec<String>)
        ensures
            text::texts(r@).to_set() == self@,
            text::texts(r@).no_duplicates(),
    {
        proof {
            use_type_invariant(&*self);
        }
        &self.names
    }

    /// Whether `name` is in the set.
    pub fn contains(&self, name: &str) -> (r: bool)
        ensures
            r == self@.contains(name@),
    {
        for i in 0..self.names.len()
            invariant
                forall|j: int| 0 <= j < i ==> self.names@[j]@ != name@,
        {
            if text::same(&self.names[i], name) {
                assert(text::texts(self.names@)[i as int] == name@);
                return true;
            }
        }
        proof {
            if self@.contains(name@) {
                let j = choose|j: int|
                    0 <= j < self.names@.len() && text::texts(self.names@)[j] == name@;
                assert(self.names@[j]@ == name@);
            }
        }
        false
    }

    /// Adds `name`; the result says whether it was new.
    pub fn insert(&mut self, name: String) -> (r: bool)
        ensures
            final(self)@ == old(self)@.insert(name@),
            r == !old(self)@.contains(name@),
    {
        if self.contains(&name) {
            assert(self@.insert(name@) =~= self@);
            return false;
        }
        proof {
            use_type_invariant(&*self);
        }
        let ghost before = self.names@;
        let ghost key = name@;
        let mut names: Vec<String> = Vec::new();
        std::mem::swap(&mut names, &mut self.names);
        names.push(name);
        proof {
            let a = text::texts(before);
            let b = text::texts(names@);
            assert(b == a.push(key));
            assert(!a.contains(key));
            assert(b.no_duplicates());
            a.lemma_push_to_set_commute(key);
        }
        self.names = names;
        true
    }

    /// Takes `name` out; the result says whether it was there.
    pub fn remove(&mut self, name: &str) -> (r: bool)
        ensures
            final(self)@ == old(self)@.remove(name@),
            r == old(self)@.contains(name@),
    {
        let mut i: usize = 0;
        while i < self.names.len()
            invariant
                self@ == old(self)@,
                i <= self.names@.len(),
                forall|j: int| 0 <= j < i ==> #[trigger] text::texts(self.names@)[j] != name@,
            decreases self.names@.len() - i,
        {
            if text::same(&self.names[i], name) {
                proof {
                    use_type_invariant(&*self);
                }
                let ghost before = text::texts(self.names@);
                let mut names: Vec<String> = Vec::new();
                std::mem::swap(&mut names, &mut self.names);
                names.remove(i);
                proof {
                    let after = text::texts(names@);
                    assert(after =~= before.remove(i as int));
                    assert(before[i as int] == name@);
                    assert forall|x: Seq<char>| after.contains(x) <==> (before.contains(x) && x
                        != name@) by {
                        if after.contains(x) {
                            let j = choose|j: int| 0 <= j < after.len() && after[j] == x;
                            let k = if j < i {
                                j
                            } else {
                                j + 1
                            };
                            assert(before[k] == x);
                        }
                        if before.contains(x) && x != name@ {
                            let k = choose|k: int| 0 <= k < before.len() && before[k] == x;
                            let j = if k < i {
                                k
                            } else {
                                k - 1
                            };
                            assert(after[j] == x);
                        }
                    }
                    assert forall|a: int, b: int|
                        0 <= a < after.len() && 0 <= b < after.len() && a != b implies after[a]
                        != after[b] by {
                        let k = if a < i {
                            a
                        } else {
                            a + 1
                        };
                        let l = if b < i {
                            b
                        } else {
                            b + 1
                        };
                        assert(before[k] != before[l]);
                    }
                    assert(after.to_set() =~= before.to_set().remove(name@));
                }
                self.names = names;
                return true;
            }
            i += 1;
        }
        proof {
            if self@.contains(name@) {
                let j = choose|j: int|
                    0 <= j < self.names@.len() && text::texts(self.names@)[j] == name@;
                assert(text::texts(self.names@)[j] != name@);
            }
            assert(self@.remove(name@) =~= self@);
        }
        false
    }

    /// Adds every name of `other`.
    pub fn extend(&mut self, other: &NameSet)
        ensures
            final(self)@ == old(self)@.union(other@),
    {
        let ghost start = self@;
        let items = other.items();
        for i in 0..items.len()
            invariant
                text::texts(items@).to_set() == other@,
                self@ == start.union(text::texts(items@).take(i as int).to_set()),
        {
            let ghost t = text::texts(items@);
            let ghost before = self@;
            let name = items[i].clone();
            assert(name@ == t[i as int]);
            self.insert(name);
            proof {
                assert(t.take(i + 1) == t.take(i as int).push(t[i as int]));
                t.take(i as int).lemma_push_to_set_commute(t[i as int]);
                assert(self@ =~= start.union(t.take(i + 1).to_set()));
            }
        }
        proof {
            let t = text::texts(items@);
            assert(t.take(t.len() as int) == t);
        }
        assert(self@ =~= start.union(other@));
    }

    /// The number of names in the set.
    pub fn len(&self) -> (r: usize)
        ensures
            r == self@.len(),
    {
        proof {
            use_type_invariant(&*self);
            text::texts(self.names@).unique_seq_to_set();
        }
        self.names.len()
    }

    /// Whether the set holds no name.
    pub fn is_empty(&self) -> (r: bool)
        ensures
            r == (self@ == Set::<Seq<char>>::empty()),
    {
        let r = self.names.len() == 0;
        proof {
            if r {
                assert(self@ =~= Set::empty());
            } else {
                assert(text::texts(self.names@).contains(text::texts(self.names@)[0]));
                assert(self@.contains(self.names@[0]@));
            }
        }
        r
    }
}

} // verus!
