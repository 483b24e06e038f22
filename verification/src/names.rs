//! Sets of names kept as strictly ascending lists, so that what is written
//! from them comes out in one order whatever order the names came in.

use vstd::prelude::*;
use crate::text::{lemma_text_less_order, str_equal, str_less, strictly_sorted, text_less};

verus! {

/// How many names at the front of `names` come before `name`.
pub open spec fn insertion_point(names: Seq<Seq<char>>, name: Seq<char>) -> int
    decreases names.len(),
{
    if names.len() == 0 || !text_less(names[0], name) {
        0
    } else {
        1 + insertion_point(names.drop_first(), name)
    }
}

/// `names` with `name` put in at its place, unless it stands there already.
pub open spec fn insert_sorted(names: Seq<Seq<char>>, name: Seq<char>) -> Seq<Seq<char>> {
    let p = insertion_point(names, name);
    if p < names.len() && names[p] == name {
        names
    } else {
        names.insert(p, name)
    }
}

/// `names` with every name that `items` holds put in, in order; an item
/// that is `None` adds nothing.
pub open spec fn insert_found(names: Seq<Seq<char>>, items: Seq<Option<Seq<char>>>) -> Seq<
    Seq<char>,
>
    decreases items.len(),
{
    if items.len() == 0 {
        names
    } else {
        match items.last() {
            Some(name) => insert_sorted(insert_found(names, items.drop_last()), name),
            None => insert_found(names, items.drop_last()),
        }
    }
}

/// The ascending list of the names that `items` holds.
pub open spec fn sorted_names(items: Seq<Option<Seq<char>>>) -> Seq<Seq<char>> {
    insert_found(Seq::empty(), items)
}

/// What has a name that it is ordered and found by.
pub trait Named {
    /// The name.
    spec fn name(&self) -> Seq<char>;

    /// The name, as text.
    fn name_str(&self) -> (r: &str)
        ensures
            r@ == self.name(),
    ;
}

impl Named for String {
    open spec fn name(&self) -> Seq<char> {
        self@
    }

    fn name_str(&self) -> (r: &str) {
        self.as_str()
    }
}

impl<V> Named for (String, V) {
    open spec fn name(&self) -> Seq<char> {
        self.0@
    }

    fn name_str(&self) -> (r: &str) {
        self.0.as_str()
    }
}

/// The names of the entries of `list`, in order.
pub open spec fn names_of<T: Named>(list: Seq<T>) -> Seq<Seq<char>> {
    Seq::new(list.len(), |i: int| list[i].name())
}

/// Every name of `more` put into `names`.
pub open spec fn insert_all(names: Seq<Seq<char>>, more: Seq<Seq<char>>) -> Seq<Seq<char>>
    decreases more.len(),
{
    if more.len() == 0 {
        names
    } else {
        insert_sorted(insert_all(names, more.drop_last()), more.last())
    }
}

/// The insertion point lies behind every name that comes before `name`,
/// and in front of the first one that does not.
pub proof fn lemma_insertion_point(names: Seq<Seq<char>>, name: Seq<char>)
    ensures
        0 <= insertion_point(names, name) <= names.len(),
        forall|j: int|
            0 <= j < insertion_point(names, name) ==> text_less(#[trigger] names[j], name),
        insertion_point(names, name) < names.len() ==> !text_less(
            names[insertion_point(names, name)],
            name,
        ),
    decreases names.len(),
{
    if names.len() > 0 && text_less(names[0], name) {
        let rest = names.drop_first();
        lemma_insertion_point(rest, name);
        assert forall|j: int| 0 <= j < insertion_point(names, name) implies text_less(
            #[trigger] names[j],
            name,
        ) by {
            if j > 0 {
                assert(names[j] == rest[j - 1]);
            }
        }
        if insertion_point(names, name) < names.len() {
            assert(names[insertion_point(names, name)] == rest[insertion_point(rest, name)]);
        }
    }
}

/// Putting a name into an ascending list leaves the list ascending, and
/// adds exactly that name to what it holds.
pub proof fn lemma_insert_sorted(names: Seq<Seq<char>>, name: Seq<char>)
    requires
        strictly_sorted(names),
    ensures
        strictly_sorted(insert_sorted(names, name)),
        forall|k: Seq<char>|
            insert_sorted(names, name).contains(k) <==> (names.contains(k) || k == name),
{
    let p = insertion_point(names, name);
    let r = insert_sorted(names, name);
    lemma_insertion_point(names, name);
    if p < names.len() && names[p] == name {
        assert(names.contains(name));
    } else {
        assert(r == names.insert(p, name));
        assert forall|i: int, j: int| 0 <= i < j < r.len() implies text_less(
            #[trigger] r[i],
            #[trigger] r[j],
        ) by {
            if j < p {
                assert(r[i] == names[i] && r[j] == names[j]);
            } else if j == p {
                assert(r[i] == names[i]);
            } else {
                assert(r[j] == names[j - 1]);
                lemma_text_less_order(name, names[p], names[j - 1]);
                if i < p {
                    assert(r[i] == names[i]);
                    if j - 1 > p {
                        assert(text_less(names[p], names[j - 1]));
                    }
                    lemma_text_less_order(names[i], name, names[j - 1]);
                } else if i == p {
                    if j - 1 > p {
                        assert(text_less(names[p], names[j - 1]));
                    }
                } else {
                    assert(r[i] == names[i - 1]);
                }
            }
        }
        assert forall|k: Seq<char>| r.contains(k) <==> (names.contains(k) || k == name) by {
            if r.contains(k) {
                let j = choose|j: int| 0 <= j < r.len() && r[j] == k;
                if j < p {
                    assert(names[j] == k);
                } else if j > p {
                    assert(names[j - 1] == k);
                }
            }
            if names.contains(k) {
                let j = choose|j: int| 0 <= j < names.len() && names[j] == k;
                if j < p {
                    assert(r[j] == k);
                } else {
                    assert(r[j + 1] == k);
                }
            }
            if k == name {
                assert(r[p] == k);
            }
        }
    }
}

/// Putting the names that items hold into an ascending list leaves it
/// ascending, and adds exactly those names.
pub proof fn lemma_insert_found(names: Seq<Seq<char>>, items: Seq<Option<Seq<char>>>)
    requires
        strictly_sorted(names),
    ensures
        strictly_sorted(insert_found(names, items)),
        forall|k: Seq<char>|
            insert_found(names, items).contains(k) <==> (names.contains(k) || items.contains(
                Some(k),
            )),
    decreases items.len(),
{
    if items.len() > 0 {
        let front = items.drop_last();
        lemma_insert_found(names, front);
        match items.last() {
            Some(name) => {
                lemma_insert_sorted(insert_found(names, front), name);
            },
            None => {},
        }
        assert forall|k: Seq<char>|
            insert_found(names, items).contains(k) <==> (names.contains(k) || items.contains(
                Some(k),
            )) by {
            let inner = insert_found(names, front).contains(k);
            assert(inner <==> (names.contains(k) || front.contains(Some(k))));
            assert(insert_found(names, items).contains(k) <==> (inner || items.last() == Some(k)));
            if items.contains(Some(k)) {
                let j = choose|j: int| 0 <= j < items.len() && items[j] == Some(k);
                if j < front.len() {
                    assert(front[j] == Some(k));
                    assert(front.contains(Some(k)));
                } else {
                    assert(items.last() == Some(k));
                }
            }
            if front.contains(Some(k)) {
                let j = choose|j: int| 0 <= j < front.len() && front[j] == Some(k);
                assert(items[j] == Some(k));
                assert(items.contains(Some(k)));
            }
            if items.last() == Some(k) {
                assert(items[items.len() - 1] == Some(k));
                assert(items.contains(Some(k)));
            }
        }
    }
}

/// The list that [`sorted_names`] makes is ascending and holds exactly the
/// names that the items hold.
pub proof fn lemma_sorted_names(items: Seq<Option<Seq<char>>>)
    ensures
        strictly_sorted(sorted_names(items)),
        forall|k: Seq<char>| sorted_names(items).contains(k) <==> items.contains(Some(k)),
{
    let empty = Seq::<Seq<char>>::empty();
    lemma_insert_found(empty, items);
    assert forall|k: Seq<char>| sorted_names(items).contains(k) <==> items.contains(
        Some(k),
    ) by {
        assert(!empty.contains(k));
        assert(insert_found(empty, items).contains(k) <==> (empty.contains(k) || items.contains(
            Some(k),
        )));
    }
}

/// Putting names into an ascending list leaves it ascending, and adds
/// exactly those names.
pub proof fn lemma_insert_all(names: Seq<Seq<char>>, more: Seq<Seq<char>>)
    requires
        strictly_sorted(names),
    ensures
        strictly_sorted(insert_all(names, more)),
        forall|k: Seq<char>|
            insert_all(names, more).contains(k) <==> (names.contains(k) || more.contains(k)),
    decreases more.len(),
{
    if more.len() > 0 {
        let front = more.drop_last();
        lemma_insert_all(names, front);
        lemma_insert_sorted(insert_all(names, front), more.last());
        assert forall|k: Seq<char>|
            insert_all(names, more).contains(k) <==> (names.contains(k) || more.contains(k)) by {
            if more.contains(k) {
                let j = choose|j: int| 0 <= j < more.len() && more[j] == k;
                if j < front.len() {
                    assert(front[j] == k);
                }
            }
            if front.contains(k) {
                let j = choose|j: int| 0 <= j < front.len() && front[j] == k;
                assert(more[j] == k);
            }
            if more.last() == k {
                assert(more[more.len() - 1] == k);
            }
        }
    }
}

/// The place of `name` in `list`: how many entries at its front have a
/// name that comes before `name`.
pub fn place_of<T: Named>(list: &Vec<T>, name: &str) -> (r: usize)
    ensures
        r == insertion_point(names_of(list@), name@),
        r <= list.len(),
{
    let ghost names = names_of(list@);
    let mut i: usize = 0;
    proof {
        assert(names.skip(0) =~= names);
    }
    while i < list.len() && str_less(list[i].name_str(), name)
        invariant
            i <= list.len(),
            names == names_of(list@),
            insertion_point(names, name@) == i + insertion_point(names.skip(i as int), name@),
        decreases list.len() - i,
    {
        proof {
            assert(names.skip(i as int)[0] == names[i as int]);
            assert(names.skip(i as int).drop_first() =~= names.skip(i + 1));
        }
        i += 1;
    }
    proof {
        if i < list.len() {
            assert(names.skip(i as int)[0] == names[i as int]);
        }
    }
    i
}

/// A copy of the list.
pub fn copy_names(names: &Vec<String>) -> (r: Vec<String>)
    ensures
        r.deep_view() == names.deep_view(),
{
    let mut out: Vec<String> = Vec::new();
    let mut i: usize = 0;
    while i < names.len()
        invariant
            i <= names.len(),
            out.len() == i,
            forall|j: int| 0 <= j < i ==> out.deep_view()[j] == names.deep_view()[j],
        decreases names.len() - i,
    {
        out.push(names[i].clone());
        i += 1;
    }
    assert(out.deep_view() =~= names.deep_view());
    out
}

/// Puts `name` into `names` at its place, unless it stands there already.
pub fn insert_name(names: &mut Vec<String>, name: String)
    ensures
        final(names).deep_view() == insert_sorted(old(names).deep_view(), name@),
{
    let ghost before = names.deep_view();
    assert(names_of(names@) =~= before);
    let i = place_of(names, name.as_str());
    if i < names.len() && str_equal(names[i].as_str(), name.as_str()) {
    } else {
        names.insert(i, name);
        assert(names.deep_view() =~= before.insert(i as int, name@));
    }
}

/// Puts a copy of every name of `more` into `names`.
pub fn insert_names(names: &mut Vec<String>, more: &Vec<String>)
    ensures
        final(names).deep_view() == insert_all(old(names).deep_view(), more.deep_view()),
{
    let mut i: usize = 0;
    assert(more.deep_view().take(0) =~= Seq::empty());
    while i < more.len()
        invariant
            i <= more.len(),
            names.deep_view() == insert_all(old(names).deep_view(), more.deep_view().take(i as int)),
        decreases more.len() - i,
    {
        insert_name(names, more[i].clone());
        proof {
            let next = more.deep_view().take(i + 1);
            assert(next.drop_last() =~= more.deep_view().take(i as int));
            assert(next.last() == more[i as int]@);
        }
        i += 1;
    }
    assert(more.deep_view().take(more.len() as int) =~= more.deep_view());
}

} // verus!
