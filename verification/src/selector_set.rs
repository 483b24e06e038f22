//! A set of accessor selectors, each marked as class-level or not: the
//! accessors that properties have announced and no method has taken up yet.

use vstd::prelude::*;
use crate::text::str_equal;

verus! {

/// A finite set of selectors, each with a flag that says whether it belongs
/// to the class rather than its instances.
#[derive(Debug)]
pub struct SelectorSet {
    entries: Vec<(bool, String)>,
}

impl View for SelectorSet {
    type V = Set<(bool, Seq<char>)>;

    closed spec fn view(&self) -> Set<(bool, Seq<char>)> {
        self.entries.deep_view().to_set()
    }
}

impl SelectorSet {
    /// No selector is stored twice. Every set that this type's functions
    /// make is well formed.
    pub closed spec fn wf(&self) -> bool {
        self.entries.deep_view().no_duplicates()
    }

    /// The empty set.
    pub fn new() -> (r: SelectorSet)
        ensures
            r.wf(),
            r@ == Set::<(bool, Seq<char>)>::empty(),
    {
        let r = SelectorSet { entries: Vec::new() };
        assert(r.entries.deep_view() =~= Seq::empty());
        assert(r@ =~= Set::empty());
        r
    }

    fn position(&self, is_class: bool, selector: &str) -> (r: Option<usize>)
        ensures
            match r {
                Some(i) => i < self.entries.len() && self.entries.deep_view()[i as int] == (
                    is_class,
                    selector@,
                ),
                None => !self@.contains((is_class, selector@)),
            },
    {
        let mut i: usize = 0;
        while i < self.entries.len()
            invariant
                i <= self.entries.len(),
                forall|j: int| 0 <= j < i ==> self.entries.deep_view()[j] != (is_class, selector@),
            decreases self.entries.len() - i,
        {
            if self.entries[i].0 == is_class && str_equal(self.entries[i].1.as_str(), selector) {
                return Some(i);
            }
            i += 1;
        }
        None
    }

    /// Whether the set holds the selector.
    pub fn contains(&self, is_class: bool, selector: &str) -> (r: bool)
        ensures
            r == self@.contains((is_class, selector@)),
    {
        match self.position(is_class, selector) {
            Some(i) => {
                assert(self.entries.deep_view().contains(self.entries.deep_view()[i as int]));
                true
            },
            None => false,
        }
    }

    /// Puts the selector into the set. Returns whether it was new.
    pub fn insert(&mut self, is_class: bool, selector: &str) -> (r: bool)
        requires
            old(self).wf(),
        ensures
            final(self).wf(),
            r == !old(self)@.contains((is_class, selector@)),
            final(self)@ == old(self)@.insert((is_class, selector@)),
    {
        match self.position(is_class, selector) {
            Some(i) => {
                assert(self.entries.deep_view().contains(self.entries.deep_view()[i as int]));
                assert(self@ =~= old(self)@.insert((is_class, selector@)));
                false
            },
            None => {
                let ghost before = self.entries.deep_view();
                self.entries.push((is_class, String::from_str(selector)));
                proof {
                    let key = (is_class, selector@);
                    assert(self.entries.deep_view() =~= before.push(key));
                    assert forall|k: (bool, Seq<char>)|
                        before.push(key).contains(k) <==> (before.contains(k) || k == key) by {
                        if before.push(key).contains(k) {
                            let j = choose|j: int|
                                0 <= j < before.push(key).len() && before.push(key)[j] == k;
                            if j < before.len() {
                                assert(before[j] == k);
                            }
                        }
                        if before.contains(k) {
                            let j = choose|j: int| 0 <= j < before.len() && before[j] == k;
                            assert(before.push(key)[j] == k);
                        }
                        if k == key {
                            assert(before.push(key)[before.len() as int] == k);
                        }
                    }
                    assert(self@ =~= old(self)@.insert(key));
                }
                true
            },
        }
    }

    /// Takes the selector out of the set. Returns whether it was there.
    pub fn remove(&mut self, is_class: bool, selector: &str) -> (r: bool)
        requires
            old(self).wf(),
        ensures
            final(self).wf(),
            r == old(self)@.contains((is_class, selector@)),
            final(self)@ == old(self)@.remove((is_class, selector@)),
    {
        match self.position(is_class, selector) {
            Some(i) => {
                let ghost before = self.entries.deep_view();
                let ghost key = (is_class, selector@);
                assert(before.contains(before[i as int]));
                self.entries.remove(i);
                proof {
                    let after = self.entries.deep_view();
                    assert(after =~= before.remove(i as int));
                    assert forall|k: (bool, Seq<char>)|
                        after.contains(k) <==> (before.contains(k) && k != key) by {
                        if after.contains(k) {
                            let j = choose|j: int| 0 <= j < after.len() && after[j] == k;
                            if j < i {
                                assert(before[j] == k);
                            } else {
                                assert(before[j + 1] == k);
                            }
                        }
                        if before.contains(k) && k != key {
                            let j = choose|j: int| 0 <= j < before.len() && before[j] == k;
                            if j < i {
                                assert(after[j] == k);
                            } else {
                                assert(after[j - 1] == k);
                            }
                        }
                    }
                    assert(self@ =~= old(self)@.remove(key));
                }
                true
            },
            None => {
                assert(self@ =~= old(self)@.remove((is_class, selector@)));
                false
            },
        }
    }

    /// Whether the set holds nothing.
    pub fn is_empty(&self) -> (r: bool)
        ensures
            r == (self@ == Set::<(bool, Seq<char>)>::empty()),
    {
        if self.entries.len() == 0 {
            assert(self.entries.deep_view() =~= Seq::empty());
            assert(self@ =~= Set::empty());
            true
        } else {
            assert(self.entries.deep_view().contains(self.entries.deep_view()[0]));
            assert(self@.contains(self.entries.deep_view()[0]));
            false
        }
    }

    /// Whether the set holds the given selector and nothing else.
    pub fn is_only(&self, is_class: bool, selector: &str) -> (r: bool)
        requires
            self.wf(),
        ensures
            r == (self@ == Set::<(bool, Seq<char>)>::empty().insert((is_class, selector@))),
    {
        let ghost key = (is_class, selector@);
        let ghost keys = self.entries.deep_view();
        if self.entries.len() == 1 {
            if self.entries[0].0 == is_class && str_equal(self.entries[0].1.as_str(), selector) {
                proof {
                    assert(keys[0] == key);
                    assert forall|k: (bool, Seq<char>)| keys.contains(k) <==> k == key by {
                        if keys.contains(k) {
                            let j = choose|j: int| 0 <= j < keys.len() && keys[j] == k;
                            assert(j == 0);
                        }
                    }
                    assert(self@ =~= Set::empty().insert(key));
                }
                true
            } else {
                assert(keys.contains(keys[0]));
                assert(self@.contains(keys[0]));
                false
            }
        } else if self.entries.len() == 0 {
            assert(keys =~= Seq::empty());
            assert(!self@.contains(key));
            assert(Set::<(bool, Seq<char>)>::empty().insert(key).contains(key));
            false
        } else {
            proof {
                assert(keys.contains(keys[0]));
                assert(keys.contains(keys[1]));
                assert(keys[0] != keys[1]);
                assert(self@.contains(keys[0]));
                assert(self@.contains(keys[1]));
            }
            false
        }
    }
}

} // verus!
