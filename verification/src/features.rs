//! The features that the modules of a tree depend on: for each module
//! below the root, by its name, the features that its statements need.

use vstd::prelude::*;
use crate::config::{Config, ConfigView};
use crate::items::{collect_items, stmts_items};
use crate::module::{
    clean_name,
    clean_name_spec,
    features_of,
    insert_needs,
    Module,
    ModuleView,
    Need,
};
use crate::names::{
    copy_names,
    insert_found,
    insert_sorted,
    insertion_point,
    lemma_insert_found,
    lemma_insert_sorted,
    lemma_insertion_point,
    names_of,
    place_of,
};
use crate::text::{lemma_text_less_order, str_equal, strictly_sorted, text_less};

verus! {

/// The keys of a table, in the order they are kept in.
pub open spec fn keys_of(map: Seq<(Seq<char>, Seq<Seq<char>>)>) -> Seq<Seq<char>> {
    Seq::new(map.len(), |i: int| map[i].0)
}

/// What the table holds for `key`; nothing where it has no entry.
pub open spec fn entry_of(map: Seq<(Seq<char>, Seq<Seq<char>>)>, key: Seq<char>) -> Seq<
    Seq<char>,
> {
    let p = insertion_point(keys_of(map), key);
    if p < map.len() && map[p].0 == key {
        map[p].1
    } else {
        Seq::empty()
    }
}

/// The table with `value` for `key`: in place of the entry that `key` had,
/// or as a new entry at the place that the order of keys gives it.
pub open spec fn with_entry(
    map: Seq<(Seq<char>, Seq<Seq<char>>)>,
    key: Seq<char>,
    value: Seq<Seq<char>>,
) -> Seq<(Seq<char>, Seq<Seq<char>>)> {
    let p = insertion_point(keys_of(map), key);
    if p < map.len() && map[p].0 == key {
        map.update(p, (key, value))
    } else {
        map.insert(p, (key, value))
    }
}

/// The table with every entry of `other` put in, in order; an entry of
/// `other` takes the place of one with the same key.
pub open spec fn extended(
    map: Seq<(Seq<char>, Seq<Seq<char>>)>,
    other: Seq<(Seq<char>, Seq<Seq<char>>)>,
) -> Seq<(Seq<char>, Seq<Seq<char>>)>
    decreases other.len(),
{
    if other.len() == 0 {
        map
    } else {
        with_entry(extended(map, other.drop_last()), other.last().0, other.last().1)
    }
}

impl ModuleView {
    /// For each module below, by its cleaned name, the features that its
    /// own statements need, in ascending order of the names. The module's
    /// own statements are left out. The modules below are taken in order:
    /// each adds its features to the entry of its name, and then puts in
    /// the entries of the modules below itself.
    pub open spec fn required_cargo_features(self, config: ConfigView, emission_library: Seq<char>)
        -> Seq<(Seq<char>, Seq<Seq<char>>)>
        decreases self, self.submodules.len() + 1,
    {
        self.features_below(self.submodules.len(), config, emission_library)
    }

    /// The table after the first `n` modules below.
    pub open spec fn features_below(self, n: nat, config: ConfigView, emission_library: Seq<char>)
        -> Seq<(Seq<char>, Seq<Seq<char>>)>
        decreases self, n,
    {
        if n == 0 || n > self.submodules.len() {
            Seq::empty()
        } else {
            let before = self.features_below((n - 1) as nat, config, emission_library);
            let name = clean_name_spec(self.submodules[n - 1].0);
            let below = self.submodules[n - 1].1;
            extended(
                with_entry(
                    before,
                    name,
                    insert_found(
                        entry_of(before, name),
                        features_of(config, emission_library, stmts_items(below.stmts)),
                    ),
                ),
                below.required_cargo_features(config, emission_library),
            )
        }
    }
}

/// Putting an entry into a table with ascending keys leaves the keys
/// ascending.
pub proof fn lemma_with_entry_sorted(
    map: Seq<(Seq<char>, Seq<Seq<char>>)>,
    key: Seq<char>,
    value: Seq<Seq<char>>,
)
    requires
        strictly_sorted(keys_of(map)),
    ensures
        strictly_sorted(keys_of(with_entry(map, key, value))),
        entry_of(with_entry(map, key, value), key) == value,
{
    let p = insertion_point(keys_of(map), key);
    let after = with_entry(map, key, value);
    lemma_insertion_point(keys_of(map), key);
    lemma_insert_sorted(keys_of(map), key);
    if p < map.len() && map[p].0 == key {
        assert(keys_of(map)[p] == key);
        assert(keys_of(after) =~= keys_of(map));
    } else {
        if p < map.len() {
            assert(keys_of(map)[p] == map[p].0);
        }
        assert(keys_of(after) =~= insert_sorted(keys_of(map), key));
    }
    lemma_position_of_key(keys_of(after), key, p);
}

/// In an ascending list a name that stands at `p` has `p` as its place.
pub proof fn lemma_position_of_key(keys: Seq<Seq<char>>, key: Seq<char>, p: int)
    requires
        strictly_sorted(keys),
        0 <= p < keys.len(),
        keys[p] == key,
    ensures
        insertion_point(keys, key) == p,
{
    let q = insertion_point(keys, key);
    lemma_insertion_point(keys, key);
    lemma_text_less_order(key, key, key);
    if q < p {
        assert(text_less(keys[q], keys[p]));
    } else if q > p {
        assert(text_less(keys[p], key));
    }
}

/// Whether every entry of the table holds an ascending list.
pub open spec fn values_sorted(map: Seq<(Seq<char>, Seq<Seq<char>>)>) -> bool {
    forall|i: int| 0 <= i < map.len() ==> strictly_sorted((#[trigger] map[i]).1)
}

/// Putting an ascending list into a table of ascending lists leaves it one.
pub proof fn lemma_with_entry_values(
    map: Seq<(Seq<char>, Seq<Seq<char>>)>,
    key: Seq<char>,
    value: Seq<Seq<char>>,
)
    requires
        values_sorted(map),
        strictly_sorted(value),
    ensures
        values_sorted(with_entry(map, key, value)),
{
    let p = insertion_point(keys_of(map), key);
    let after = with_entry(map, key, value);
    lemma_insertion_point(keys_of(map), key);
    assert forall|i: int| 0 <= i < after.len() implies strictly_sorted(
        (#[trigger] after[i]).1,
    ) by {
        if p < map.len() && map[p].0 == key {
            if i != p {
                assert(after[i] == map[i]);
            }
        } else {
            if i < p {
                assert(after[i] == map[i]);
            } else if i > p {
                assert(after[i] == map[i - 1]);
            }
        }
    }
}

/// Putting the entries of a table of ascending lists into another leaves
/// it one.
pub proof fn lemma_extended_values(
    map: Seq<(Seq<char>, Seq<Seq<char>>)>,
    other: Seq<(Seq<char>, Seq<Seq<char>>)>,
)
    requires
        values_sorted(map),
        values_sorted(other),
    ensures
        values_sorted(extended(map, other)),
    decreases other.len(),
{
    if other.len() > 0 {
        let front = other.drop_last();
        assert forall|i: int| 0 <= i < front.len() implies strictly_sorted(
            (#[trigger] front[i]).1,
        ) by {
            assert(front[i] == other[i]);
        }
        lemma_extended_values(map, front);
        assert(strictly_sorted(other[other.len() - 1].1));
        lemma_with_entry_values(extended(map, front), other.last().0, other.last().1);
    }
}

/// What a table with ascending lists holds for a key is an ascending list.
pub proof fn lemma_entry_sorted(map: Seq<(Seq<char>, Seq<Seq<char>>)>, key: Seq<char>)
    requires
        values_sorted(map),
    ensures
        strictly_sorted(entry_of(map, key)),
{
    let p = insertion_point(keys_of(map), key);
    lemma_insertion_point(keys_of(map), key);
    if p < map.len() && map[p].0 == key {
        assert(strictly_sorted(map[p].1));
    }
}

/// In the table of required features every list of features is ascending:
/// no feature stands twice for a module.
pub proof fn lemma_required_features_values(
    module: ModuleView,
    n: nat,
    config: ConfigView,
    emission_library: Seq<char>,
)
    requires
        n <= module.submodules.len(),
    ensures
        values_sorted(module.features_below(n, config, emission_library)),
    decreases module, n,
{
    if n > 0 {
        lemma_required_features_values(module, (n - 1) as nat, config, emission_library);
        let before = module.features_below((n - 1) as nat, config, emission_library);
        let name = clean_name_spec(module.submodules[n - 1].0);
        let below = module.submodules[n - 1].1;
        let found = features_of(config, emission_library, stmts_items(below.stmts));
        lemma_entry_sorted(before, name);
        lemma_insert_found(entry_of(before, name), found);
        lemma_with_entry_values(before, name, insert_found(entry_of(before, name), found));
        lemma_required_features_values(
            below,
            below.submodules.len(),
            config,
            emission_library,
        );
        lemma_extended_values(
            with_entry(before, name, insert_found(entry_of(before, name), found)),
            below.required_cargo_features(config, emission_library),
        );
    }
}

/// Putting entries into a table with ascending keys leaves the keys
/// ascending.
pub proof fn lemma_extended_sorted(
    map: Seq<(Seq<char>, Seq<Seq<char>>)>,
    other: Seq<(Seq<char>, Seq<Seq<char>>)>,
)
    requires
        strictly_sorted(keys_of(map)),
    ensures
        strictly_sorted(keys_of(extended(map, other))),
    decreases other.len(),
{
    if other.len() > 0 {
        lemma_extended_sorted(map, other.drop_last());
        lemma_with_entry_sorted(extended(map, other.drop_last()), other.last().0, other.last().1);
    }
}

/// The table of required features has ascending keys: no module's name
/// stands in it twice.
pub proof fn lemma_required_features_sorted(
    module: ModuleView,
    n: nat,
    config: ConfigView,
    emission_library: Seq<char>,
)
    requires
        n <= module.submodules.len(),
    ensures
        strictly_sorted(keys_of(module.features_below(n, config, emission_library))),
    decreases n,
{
    if n > 0 {
        lemma_required_features_sorted(module, (n - 1) as nat, config, emission_library);
        let before = module.features_below((n - 1) as nat, config, emission_library);
        let name = clean_name_spec(module.submodules[n - 1].0);
        let below = module.submodules[n - 1].1;
        let own = with_entry(
            before,
            name,
            insert_found(
                entry_of(before, name),
                features_of(config, emission_library, stmts_items(below.stmts)),
            ),
        );
        lemma_with_entry_sorted(
            before,
            name,
            insert_found(
                entry_of(before, name),
                features_of(config, emission_library, stmts_items(below.stmts)),
            ),
        );
        lemma_extended_sorted(own, below.required_cargo_features(config, emission_library));
    } else {
        assert(keys_of(module.features_below(0, config, emission_library)) =~= Seq::empty());
    }
}

fn entry_position(map: &Vec<(String, Vec<String>)>, key: &str) -> (r: usize)
    ensures
        r == insertion_point(keys_of(map.deep_view()), key@),
        r <= map.len(),
{
    assert(names_of(map@) =~= keys_of(map.deep_view()));
    place_of(map, key)
}

fn get_entry(map: &Vec<(String, Vec<String>)>, key: &str) -> (r: Vec<String>)
    ensures
        r.deep_view() == entry_of(map.deep_view(), key@),
{
    let p = entry_position(map, key);
    if p < map.len() && str_equal(map[p].0.as_str(), key) {
        assert(map.deep_view()[p as int].1 == map[p as int].1.deep_view());
        copy_names(&map[p].1)
    } else {
        let out: Vec<String> = Vec::new();
        assert(out.deep_view() =~= Seq::empty());
        out
    }
}

fn set_entry(map: &mut Vec<(String, Vec<String>)>, key: String, value: Vec<String>)
    ensures
        final(map).deep_view() == with_entry(old(map).deep_view(), key@, value.deep_view()),
{
    let ghost before = map.deep_view();
    let p = entry_position(map, key.as_str());
    if p < map.len() && str_equal(map[p].0.as_str(), key.as_str()) {
        map.remove(p);
        map.insert(p, (key, value));
        assert(map.deep_view() =~= before.update(p as int, (key@, value.deep_view())));
    } else {
        map.insert(p, (key, value));
        assert(map.deep_view() =~= before.insert(p as int, (key@, value.deep_view())));
    }
}

fn extend_entries(map: &mut Vec<(String, Vec<String>)>, other: &Vec<(String, Vec<String>)>)
    ensures
        final(map).deep_view() == extended(old(map).deep_view(), other.deep_view()),
{
    let mut i: usize = 0;
    assert(other.deep_view().take(0) =~= Seq::empty());
    while i < other.len()
        invariant
            i <= other.len(),
            map.deep_view() == extended(old(map).deep_view(), other.deep_view().take(i as int)),
        decreases other.len() - i,
    {
        set_entry(map, other[i].0.clone(), copy_names(&other[i].1));
        proof {
            let next = other.deep_view().take(i + 1);
            assert(next.drop_last() =~= other.deep_view().take(i as int));
            assert(next.last() == other.deep_view()[i as int]);
        }
        i += 1;
    }
    assert(other.deep_view().take(other.len() as int) =~= other.deep_view());
}

impl Module {
    /// For each module below, by its cleaned name, the features that its
    /// own statements need. Names and features stand in ascending order,
    /// each once.
    pub fn required_cargo_features(&self, config: &Config, emission_library: &str) -> (r: Vec<
        (String, Vec<String>),
    >)
        ensures
            r.deep_view() == self@.required_cargo_features(config@, emission_library@),
            strictly_sorted(keys_of(r.deep_view())),
            values_sorted(r.deep_view()),
        decreases self,
    {
        proof {
            self.lemma_view();
            lemma_required_features_sorted(
                self@,
                self@.submodules.len(),
                config@,
                emission_library@,
            );
            lemma_required_features_values(
                self@,
                self@.submodules.len(),
                config@,
                emission_library@,
            );
        }
        let mut map: Vec<(String, Vec<String>)> = Vec::new();
        let mut i: usize = 0;
        assert(map.deep_view() =~= self@.features_below(0, config@, emission_library@));
        while i < self.submodules.len()
            invariant
                i <= self.submodules.len(),
                self@.submodules.len() == self.submodules.len(),
                forall|j: int|
                    0 <= j < self.submodules.len() ==> self@.submodules[j] == (
                        self.submodules[j].0@,
                        self.submodules[j].1@,
                    ),
                map.deep_view() == self@.features_below(i as nat, config@, emission_library@),
            decreases self.submodules.len() - i,
        {
            let below = &self.submodules[i].1;
            proof {
                below.lemma_view();
            }
            let name = clean_name(self.submodules[i].0.as_str());
            let mut features = get_entry(&map, name.as_str());
            let mut items: Vec<String> = Vec::new();
            assert(items.deep_view() =~= Seq::empty());
            collect_items(&mut items, &below.stmts);
            assert(items.deep_view() =~= stmts_items(below@.stmts));
            insert_needs(&mut features, &items, config, emission_library, Need::Feature);
            set_entry(&mut map, name, features);
            let nested = below.required_cargo_features(config, emission_library);
            extend_entries(&mut map, &nested);
            i += 1;
        }
        map
    }
}

} // verus!
