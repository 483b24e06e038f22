//! The module tree: statements grouped by the file they came from, and what
//! a module has to import and to depend on.

use vstd::prelude::*;
use crate::config::{has_name, Config, ConfigView};
use crate::items::{collect_items, stmts_items};
use crate::names::{
    insert_found,
    insert_name,
    insert_sorted,
    insertion_point,
    lemma_insert_sorted,
    lemma_sorted_names,
    names_of,
    place_of,
    sorted_names,
};
use crate::stmt::{Stmt, StmtView};
use crate::text::{replace_char, replace_char_spec, str_equal, strictly_sorted};

verus! {

/// A file name as a module's name: every plus sign becomes an underscore.
pub open spec fn clean_name_spec(name: Seq<char>) -> Seq<char> {
    replace_char_spec(name, '+', '_')
}

/// Some file names hold a plus sign, which no module's name can hold: it
/// becomes an underscore.
pub fn clean_name(name: &str) -> (r: String)
    ensures
        r@ == clean_name_spec(name@),
{
    replace_char(name, '+', '_')
}

/// The crate that has to be imported for `item`: the crate of the library
/// that provides the item, unless that is the library being emitted or the
/// table does not know where the item lives.
pub open spec fn import_of(config: ConfigView, emission_library: Seq<char>, item: Seq<char>)
    -> Option<Seq<char>> {
    match config.location(item) {
        None => None,
        Some(location) => if location.library == emission_library {
            None
        } else {
            config.krate(location.library)
        },
    }
}

/// The feature that has to be enabled for `item`: for an item of the
/// library being emitted the module of its file; for an item of another
/// library that library's crate, unless the crate is one that is always
/// depended on.
pub open spec fn feature_of(config: ConfigView, emission_library: Seq<char>, item: Seq<char>)
    -> Option<Seq<char>> {
    match config.location(item) {
        None => None,
        Some(location) => if location.library == emission_library {
            Some(clean_name_spec(location.file_name))
        } else {
            match config.krate(location.library) {
                None => None,
                Some(krate) => if has_name(config.required_dependencies(emission_library), krate) {
                    None
                } else {
                    Some(krate)
                },
            }
        },
    }
}

/// What is asked of an item: the crate to import for it, or the feature to
/// enable for it.
#[derive(Debug, Clone, Copy, PartialEq, Eq, Structural)]
pub enum Need {
    Import,
    Feature,
}

/// What `item` asks for: its import or its feature, as `need` says.
pub open spec fn need_of(
    config: ConfigView,
    emission_library: Seq<char>,
    item: Seq<char>,
    need: Need,
) -> Option<Seq<char>> {
    match need {
        Need::Import => import_of(config, emission_library, item),
        Need::Feature => feature_of(config, emission_library, item),
    }
}

/// For each item what it asks for.
pub open spec fn needs_of(
    config: ConfigView,
    emission_library: Seq<char>,
    items: Seq<Seq<char>>,
    need: Need,
) -> Seq<Option<Seq<char>>> {
    Seq::new(items.len(), |i: int| need_of(config, emission_library, items[i], need))
}

/// For each item the crate that has to be imported for it.
pub open spec fn imports_of(
    config: ConfigView,
    emission_library: Seq<char>,
    items: Seq<Seq<char>>,
) -> Seq<Option<Seq<char>>> {
    needs_of(config, emission_library, items, Need::Import)
}

/// For each item the feature that has to be enabled for it.
pub open spec fn features_of(
    config: ConfigView,
    emission_library: Seq<char>,
    items: Seq<Seq<char>>,
) -> Seq<Option<Seq<char>>> {
    needs_of(config, emission_library, items, Need::Feature)
}

/// The crate that has to be imported for `item`, if any.
pub fn item_import(config: &Config, emission_library: &str, item: &str) -> (r: Option<String>)
    ensures
        r.deep_view() == import_of(config@, emission_library@, item@),
{
    match config.location(item) {
        None => None,
        Some(location) => {
            if str_equal(location.library.as_str(), emission_library) {
                None
            } else {
                match config.krate(location.library.as_str()) {
                    Some(krate) => Some(krate.clone()),
                    None => None,
                }
            }
        },
    }
}

/// The feature that has to be enabled for `item`, if any.
pub fn item_feature(config: &Config, emission_library: &str, item: &str) -> (r: Option<String>)
    ensures
        r.deep_view() == feature_of(config@, emission_library@, item@),
{
    match config.location(item) {
        None => None,
        Some(location) => {
            if str_equal(location.library.as_str(), emission_library) {
                Some(clean_name(location.file_name.as_str()))
            } else {
                match config.krate(location.library.as_str()) {
                    None => None,
                    Some(krate) => {
                        if config.is_required_dependency(emission_library, krate.as_str()) {
                            None
                        } else {
                            Some(krate.clone())
                        }
                    },
                }
            }
        },
    }
}

/// Puts what each of `items` asks for into the ascending list `names`.
pub fn insert_needs(
    names: &mut Vec<String>,
    items: &Vec<String>,
    config: &Config,
    emission_library: &str,
    need: Need,
)
    ensures
        final(names).deep_view() == insert_found(
            old(names).deep_view(),
            needs_of(config@, emission_library@, items.deep_view(), need),
        ),
{
    let ghost all = needs_of(config@, emission_library@, items.deep_view(), need);
    let mut i: usize = 0;
    assert(all.take(0) =~= Seq::empty());
    while i < items.len()
        invariant
            i <= items.len(),
            all == needs_of(config@, emission_library@, items.deep_view(), need),
            names.deep_view() == insert_found(old(names).deep_view(), all.take(i as int)),
        decreases items.len() - i,
    {
        let found = match need {
            Need::Import => item_import(config, emission_library, items[i].as_str()),
            Need::Feature => item_feature(config, emission_library, items[i].as_str()),
        };
        proof {
            let next = all.take(i + 1);
            assert(next.drop_last() =~= all.take(i as int));
            assert(next.last() == found.deep_view());
        }
        match found {
            Some(name) => insert_name(names, name),
            None => {},
        }
        i += 1;
    }
    assert(all.take(items.len() as int) =~= all);
}

/// The ascending list of what `items` ask for.
pub fn sorted_needs(items: &Vec<String>, config: &Config, emission_library: &str, need: Need) -> (r:
    Vec<String>)
    ensures
        r.deep_view() == sorted_names(
            needs_of(config@, emission_library@, items.deep_view(), need),
        ),
{
    let mut out: Vec<String> = Vec::new();
    assert(out.deep_view() =~= Seq::empty());
    insert_needs(&mut out, items, config, emission_library, need);
    out
}

/// A node of the module tree: the statements of one file, and the modules
/// below it by name. The modules below are kept in ascending order of their
/// names.
#[derive(Debug, PartialEq, Eq)]
pub struct Module {
    pub submodules: Vec<(String, Module)>,
    pub stmts: Vec<Stmt>,
}

/// The mathematical value of a [`Module`].
pub struct ModuleView {
    pub submodules: Seq<(Seq<char>, ModuleView)>,
    pub stmts: Seq<StmtView>,
}

impl View for Module {
    type V = ModuleView;

    open spec fn view(&self) -> ModuleView {
        self.value()
    }
}

impl DeepView for Module {
    type V = ModuleView;

    open spec fn deep_view(&self) -> ModuleView {
        self.value()
    }
}

impl Default for Module {
    fn default() -> (r: Module)
        ensures
            r@ == ModuleView::empty(),
            r@.wf(),
    {
        Module::new()
    }
}

impl ModuleView {
    /// The module without statements and without modules below it.
    pub open spec fn empty() -> ModuleView {
        ModuleView { submodules: Seq::empty(), stmts: Seq::empty() }
    }

    /// The names of the modules below, in the order they are kept in.
    pub open spec fn keys(self) -> Seq<Seq<char>> {
        Seq::new(self.submodules.len(), |i: int| self.submodules[i].0)
    }

    /// The first `n` modules below are well formed.
    pub open spec fn wf_below(self, n: nat) -> bool
        decreases self, n,
    {
        if n == 0 || n > self.submodules.len() {
            true
        } else {
            self.wf_below((n - 1) as nat) && self.submodules[n - 1].1.wf()
        }
    }

    /// The modules below stand in ascending order of their names, so that
    /// no name stands twice, and each of them is well formed in turn.
    pub open spec fn wf(self) -> bool
        decreases self, self.submodules.len() + 1,
    {
        strictly_sorted(self.keys()) && self.wf_below(self.submodules.len())
    }

    /// The module with `stmt` appended to its statements.
    pub open spec fn with_stmt(self, stmt: StmtView) -> ModuleView {
        ModuleView { stmts: self.stmts.push(stmt), ..self }
    }

    /// The module with `module` below it under `name`, at the place that
    /// the order of names gives it. A module that stood there under that
    /// name is replaced.
    pub open spec fn with_submodule(self, name: Seq<char>, module: ModuleView) -> ModuleView {
        let p = insertion_point(self.keys(), name);
        if p < self.submodules.len() && self.submodules[p].0 == name {
            ModuleView { submodules: self.submodules.update(p, (name, module)), ..self }
        } else {
            ModuleView { submodules: self.submodules.insert(p, (name, module)), ..self }
        }
    }

    /// The module below that is called `name`; the empty module where there
    /// is none.
    pub open spec fn submodule(self, name: Seq<char>) -> ModuleView {
        let p = insertion_point(self.keys(), name);
        if p < self.submodules.len() && self.submodules[p].0 == name {
            self.submodules[p].1
        } else {
            ModuleView::empty()
        }
    }

    /// The names of the items that the statements of the whole tree need:
    /// those of the module itself, then those of the modules below in
    /// order.
    pub open spec fn tree_items(self) -> Seq<Seq<char>>
        decreases self, self.submodules.len() + 1,
    {
        stmts_items(self.stmts) + self.items_below(self.submodules.len())
    }

    /// The names of the items that the first `n` modules below need.
    pub open spec fn items_below(self, n: nat) -> Seq<Seq<char>>
        decreases self, n,
    {
        if n == 0 || n > self.submodules.len() {
            Seq::empty()
        } else {
            self.items_below((n - 1) as nat) + self.submodules[n - 1].1.tree_items()
        }
    }

    /// The crates that the module's own statements make it import, in
    /// ascending order.
    pub open spec fn imports(self, config: ConfigView, emission_library: Seq<char>) -> Seq<
        Seq<char>,
    > {
        sorted_names(imports_of(config, emission_library, stmts_items(self.stmts)))
    }

    /// The crates that the statements of the whole tree depend on, in
    /// ascending order.
    pub open spec fn crates(self, config: ConfigView, emission_library: Seq<char>) -> Seq<
        Seq<char>,
    > {
        sorted_names(imports_of(config, emission_library, self.tree_items()))
    }
}

/// Well-formedness of the modules below, one by one.
pub proof fn lemma_wf_below(module: ModuleView, n: nat)
    requires
        n <= module.submodules.len(),
    ensures
        module.wf_below(n) <==> forall|i: int| 0 <= i < n ==> (#[trigger] module.submodules[i]).1.wf(),
    decreases n,
{
    if n > 0 {
        lemma_wf_below(module, (n - 1) as nat);
    }
}

impl Module {
    /// The value of the module: the values of its statements, and the
    /// modules below it with their names.
    pub open spec fn value(&self) -> ModuleView
        decreases self,
    {
        ModuleView {
            submodules: Seq::new(
                self.submodules.len() as nat,
                |i: int|
                    if 0 <= i < self.submodules.len() {
                        (self.submodules[i].0@, self.submodules[i].1.value())
                    } else {
                        arbitrary()
                    },
            ),
            stmts: self.stmts.deep_view(),
        }
    }

    /// The view, field by field.
    pub proof fn lemma_view(&self)
        ensures
            self@.stmts == self.stmts.deep_view(),
            self@.submodules.len() == self.submodules.len(),
            forall|i: int|
                0 <= i < self.submodules.len() ==> self@.submodules[i] == (
                    self.submodules[i].0@,
                    self.submodules[i].1@,
                ),
    {
    }

    /// A module without statements and without modules below it.
    pub fn new() -> (r: Module)
        ensures
            r@ == ModuleView::empty(),
            r@.wf(),
    {
        let r = Module { submodules: Vec::new(), stmts: Vec::new() };
        proof {
            assert(r@.submodules =~= Seq::empty());
            assert(r@.stmts =~= Seq::empty());
            assert(r@.keys() =~= Seq::empty());
        }
        r
    }

    /// Appends a statement to the module's own statements.
    pub fn add_stmt(&mut self, stmt: Stmt)
        ensures
            final(self)@ == old(self)@.with_stmt(stmt@),
            old(self)@.wf() ==> final(self)@.wf(),
    {
        proof {
            self.lemma_view();
        }
        let ghost before = self.stmts.deep_view();
        self.stmts.push(stmt);
        proof {
            self.lemma_view();
            assert(self.stmts.deep_view() =~= before.push(stmt@));
            assert(self@.submodules =~= old(self)@.submodules);
            assert(self@.keys() =~= old(self)@.keys());
            lemma_wf_below(self@, self@.submodules.len());
            lemma_wf_below(old(self)@, self@.submodules.len());
        }
    }

    fn position(&self, name: &str) -> (r: usize)
        ensures
            r == insertion_point(self@.keys(), name@),
            r <= self.submodules.len(),
    {
        proof {
            self.lemma_view();
            assert(names_of(self.submodules@) =~= self@.keys());
        }
        place_of(&self.submodules, name)
    }

    /// Puts `module` below this module under `name`, at the place that the
    /// order of names gives it. A module that stood there under that name
    /// is replaced.
    pub fn add_submodule(&mut self, name: String, module: Module)
        ensures
            final(self)@ == old(self)@.with_submodule(name@, module@),
            old(self)@.wf() && module@.wf() ==> final(self)@.wf(),
    {
        let ghost before = self@;
        let p = self.position(name.as_str());
        proof {
            self.lemma_view();
        }
        if p < self.submodules.len() && str_equal(self.submodules[p].0.as_str(), name.as_str()) {
            self.submodules.remove(p);
            self.submodules.insert(p, (name, module));
            proof {
                self.lemma_view();
                assert(self@.submodules =~= before.submodules.update(
                    p as int,
                    (name@, module@),
                ));
                assert(self@.stmts == before.stmts);
            }
        } else {
            self.submodules.insert(p, (name, module));
            proof {
                self.lemma_view();
                assert(self@.submodules =~= before.submodules.insert(
                    p as int,
                    (name@, module@),
                ));
                assert(self@.stmts == before.stmts);
            }
        }
        proof {
            if before.wf() && module@.wf() {
                lemma_with_submodule_wf(before, name@, module@);
            }
        }
    }

    /// Appends `stmt` to the statements of the module below that is called
    /// `name`, which is made where there is none yet.
    pub fn add_submodule_stmt(&mut self, name: &str, stmt: Stmt)
        ensures
            final(self)@ == old(self)@.with_submodule(
                name@,
                old(self)@.submodule(name@).with_stmt(stmt@),
            ),
            old(self)@.wf() ==> final(self)@.wf(),
    {
        let ghost before = self@;
        let p = self.position(name);
        proof {
            self.lemma_view();
            lemma_wf_below(before, before.submodules.len());
        }
        let mut module = if p < self.submodules.len() && str_equal(
            self.submodules[p].0.as_str(),
            name,
        ) {
            let (_, found) = self.submodules.remove(p);
            found
        } else {
            Module::new()
        };
        assert(module@ == before.submodule(name@));
        module.add_stmt(stmt);
        self.submodules.insert(p, (String::from_str(name), module));
        proof {
            self.lemma_view();
            assert(self@.submodules =~= before.with_submodule(name@, module@).submodules);
            assert(self@.stmts == before.stmts);
            if before.wf() {
                if p < before.submodules.len() && before.submodules[p as int].0 == name@ {
                    assert(before.submodules[p as int].1.wf());
                }
                lemma_with_submodule_wf(before, name@, module@);
            }
        }
    }

    /// The crates that the module's own statements make it import: for
    /// every item that a statement needs and that another library provides,
    /// that library's crate. Each crate stands once, in ascending order.
    pub fn imports(&self, config: &Config, emission_library: &str) -> (r: Vec<String>)
        ensures
            r.deep_view() == self@.imports(config@, emission_library@),
            strictly_sorted(r.deep_view()),
            forall|k: Seq<char>|
                r.deep_view().contains(k) <==> exists|i: int|
                    0 <= i < stmts_items(self@.stmts).len() && import_of(
                        config@,
                        emission_library@,
                        #[trigger] stmts_items(self@.stmts)[i],
                    ) == Some(k),
    {
        let mut items: Vec<String> = Vec::new();
        assert(items.deep_view() =~= Seq::empty());
        collect_items(&mut items, &self.stmts);
        proof {
            self.lemma_view();
            assert(items.deep_view() =~= stmts_items(self@.stmts));
            lemma_sorted_imports(config@, emission_library@, stmts_items(self@.stmts));
        }
        sorted_needs(&items, config, emission_library, Need::Import)
    }

    /// Appends the names of the items that the statements of the whole tree
    /// need to `out`.
    pub fn collect_tree_items(&self, out: &mut Vec<String>)
        ensures
            final(out).deep_view() == old(out).deep_view() + self@.tree_items(),
        decreases self,
    {
        proof {
            self.lemma_view();
        }
        collect_items(out, &self.stmts);
        assert(out.deep_view() =~= old(out).deep_view() + stmts_items(self@.stmts)
            + self@.items_below(0));
        let mut i: usize = 0;
        while i < self.submodules.len()
            invariant
                i <= self.submodules.len(),
                self@.submodules.len() == self.submodules.len(),
                forall|j: int|
                    0 <= j < self.submodules.len() ==> self@.submodules[j] == (
                        self.submodules[j].0@,
                        self.submodules[j].1@,
                    ),
                out.deep_view() == old(out).deep_view() + stmts_items(self@.stmts)
                    + self@.items_below(i as nat),
            decreases self.submodules.len() - i,
        {
            self.submodules[i].1.collect_tree_items(out);
            i += 1;
            assert(out.deep_view() =~= old(out).deep_view() + stmts_items(self@.stmts)
                + self@.items_below(i as nat));
        }
        assert(out.deep_view() =~= old(out).deep_view() + self@.tree_items());
    }

    /// The crates that the statements of the whole tree depend on: what
    /// [`Module::imports`] gives for the module and for every module below
    /// it, each crate once, in ascending order.
    pub fn crates(&self, config: &Config, emission_library: &str) -> (r: Vec<String>)
        ensures
            r.deep_view() == self@.crates(config@, emission_library@),
            strictly_sorted(r.deep_view()),
            forall|k: Seq<char>|
                r.deep_view().contains(k) <==> exists|i: int|
                    0 <= i < self@.tree_items().len() && import_of(
                        config@,
                        emission_library@,
                        #[trigger] self@.tree_items()[i],
                    ) == Some(k),
    {
        let mut items: Vec<String> = Vec::new();
        assert(items.deep_view() =~= Seq::empty());
        self.collect_tree_items(&mut items);
        proof {
            assert(items.deep_view() =~= self@.tree_items());
            lemma_sorted_imports(config@, emission_library@, self@.tree_items());
        }
        sorted_needs(&items, config, emission_library, Need::Import)
    }
}

/// The ascending list of the imports of `items` holds a crate exactly if
/// one of the items has it as its import.
pub proof fn lemma_sorted_imports(
    config: ConfigView,
    emission_library: Seq<char>,
    items: Seq<Seq<char>>,
)
    ensures
        strictly_sorted(sorted_names(imports_of(config, emission_library, items))),
        forall|k: Seq<char>|
            sorted_names(imports_of(config, emission_library, items)).contains(k) <==> exists|
                i: int,
            |
                0 <= i < items.len() && import_of(config, emission_library, #[trigger] items[i])
                    == Some(k),
{
    let all = imports_of(config, emission_library, items);
    lemma_sorted_names(all);
    assert forall|k: Seq<char>|
        all.contains(Some(k)) <==> exists|i: int|
            0 <= i < items.len() && import_of(config, emission_library, #[trigger] items[i])
                == Some(k) by {
        if all.contains(Some(k)) {
            let j = choose|j: int| 0 <= j < all.len() && all[j] == Some(k);
            assert(import_of(config, emission_library, items[j]) == Some(k));
        }
        if exists|i: int|
            0 <= i < items.len() && import_of(config, emission_library, #[trigger] items[i])
                == Some(k) {
            let j = choose|i: int|
                0 <= i < items.len() && import_of(config, emission_library, #[trigger] items[i])
                    == Some(k);
            assert(all[j] == Some(k));
        }
    }
}

/// Putting a well-formed module below a well-formed module leaves it well
/// formed.
pub proof fn lemma_with_submodule_wf(module: ModuleView, name: Seq<char>, below: ModuleView)
    requires
        module.wf(),
        below.wf(),
    ensures
        module.with_submodule(name, below).wf(),
{
    let after = module.with_submodule(name, below);
    let p = insertion_point(module.keys(), name);
    crate::names::lemma_insertion_point(module.keys(), name);
    lemma_insert_sorted(module.keys(), name);
    lemma_wf_below(module, module.submodules.len());
    if p < module.submodules.len() && module.submodules[p].0 == name {
        assert(module.keys()[p] == name);
        assert(after.keys() =~= module.keys());
        assert forall|i: int| 0 <= i < after.submodules.len() implies (
        #[trigger] after.submodules[i]).1.wf() by {
            if i != p {
                assert(after.submodules[i] == module.submodules[i]);
            }
        }
    } else {
        if p < module.submodules.len() {
            assert(module.keys()[p] == module.submodules[p].0);
        }
        assert(after.keys() =~= insert_sorted(module.keys(), name));
        assert forall|i: int| 0 <= i < after.submodules.len() implies (
        #[trigger] after.submodules[i]).1.wf() by {
            if i < p {
                assert(after.submodules[i] == module.submodules[i]);
            } else if i > p {
                assert(after.submodules[i] == module.submodules[i - 1]);
            }
        }
    }
    lemma_wf_below(after, after.submodules.len());
}

} // verus!
