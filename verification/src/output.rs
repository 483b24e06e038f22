//! What emitting a module tree does to the output directory: the
//! directories to make, the files to write, and the entries of a written
//! directory that are left over from an earlier run and have to go.

use vstd::prelude::*;
use crate::config::{contains_name, has_name, Config, ConfigView};
use crate::module::{clean_name, clean_name_spec, Module, ModuleView};
use crate::names::copy_names;

verus! {

/// One step of an emission. Paths are lists of components below the place
/// that the tree is emitted to.
#[derive(Debug, Clone, PartialEq, Eq)]
pub enum OutputAction {
    /// Make the directory, and those above it, unless they exist.
    CreateDir { path: Vec<String> },
    /// Write the file, replacing what it held.
    WriteFile { path: Vec<String>, contents: String },
    /// Remove every entry of the directory whose name is not expected.
    Prune { path: Vec<String>, expected: Vec<String> },
}

/// The mathematical value of an [`OutputAction`].
pub enum OutputActionView {
    CreateDir { path: Seq<Seq<char>> },
    WriteFile { path: Seq<Seq<char>>, contents: Seq<char> },
    Prune { path: Seq<Seq<char>>, expected: Seq<Seq<char>> },
}

impl View for OutputAction {
    type V = OutputActionView;

    open spec fn view(&self) -> OutputActionView {
        match self {
            OutputAction::CreateDir { path } => OutputActionView::CreateDir {
                path: path.deep_view(),
            },
            OutputAction::WriteFile { path, contents } => OutputActionView::WriteFile {
                path: path.deep_view(),
                contents: contents@,
            },
            OutputAction::Prune { path, expected } => OutputActionView::Prune {
                path: path.deep_view(),
                expected: expected.deep_view(),
            },
        }
    }
}

impl DeepView for OutputAction {
    type V = OutputActionView;

    open spec fn deep_view(&self) -> OutputActionView {
        self.view()
    }
}

/// The path of the file of a module that is a single file: the module's
/// path with `.rs` added to its last component.
pub open spec fn file_path(path: Seq<Seq<char>>) -> Seq<Seq<char>> {
    if path.len() == 0 {
        path
    } else {
        path.drop_last().push(path.last() + ".rs"@)
    }
}

/// The name of the entry that the module called `name` has in the
/// directory of the module above it: a file for a module that is a single
/// file, a directory otherwise.
pub open spec fn entry_name(name: Seq<char>, leaf: bool) -> Seq<char> {
    if leaf {
        clean_name_spec(name) + ".rs"@
    } else {
        clean_name_spec(name)
    }
}

/// The entries of `actual` that are not among `expected`, in order.
pub open spec fn stale_entries(actual: Seq<Seq<char>>, expected: Seq<Seq<char>>) -> Seq<Seq<char>>
    decreases actual.len(),
{
    if actual.len() == 0 {
        Seq::empty()
    } else if has_name(expected, actual.last()) {
        stale_entries(actual.drop_last(), expected)
    } else {
        stale_entries(actual.drop_last(), expected).push(actual.last())
    }
}

/// The entries of `actual` that are among `expected`, in order: what a
/// directory holds once the stale entries are removed.
pub open spec fn kept_entries(actual: Seq<Seq<char>>, expected: Seq<Seq<char>>) -> Seq<Seq<char>>
    decreases actual.len(),
{
    if actual.len() == 0 {
        Seq::empty()
    } else if has_name(expected, actual.last()) {
        kept_entries(actual.drop_last(), expected).push(actual.last())
    } else {
        kept_entries(actual.drop_last(), expected)
    }
}

impl ModuleView {
    /// The entries of the first `n` modules below.
    pub open spec fn entries_below(self, n: nat) -> Seq<Seq<char>>
        decreases n,
    {
        if n == 0 || n > self.submodules.len() {
            Seq::empty()
        } else {
            self.entries_below((n - 1) as nat).push(
                entry_name(
                    self.submodules[n - 1].0,
                    self.submodules[n - 1].1.submodules.len() == 0,
                ),
            )
        }
    }

    /// The entries that the directory of a module with modules below it
    /// holds: one for each module below, and the module's own file.
    pub open spec fn expected_files(self) -> Seq<Seq<char>> {
        self.entries_below(self.submodules.len()).push("mod.rs"@)
    }

    /// The steps that emit the tree at `path`. A module without modules
    /// below it is one file. Any other module is a directory: it is made,
    /// the modules below are emitted into it in order, the module's own
    /// file is written, and what else the directory holds is removed.
    pub open spec fn plan(
        self,
        path: Seq<Seq<char>>,
        config: ConfigView,
        emission_library: Seq<char>,
    ) -> Seq<OutputActionView>
        decreases self, self.submodules.len() + 1,
    {
        if self.submodules.len() == 0 {
            seq![
                OutputActionView::WriteFile {
                    path: file_path(path),
                    contents: self.contents_text(config, emission_library),
                },
            ]
        } else {
            seq![OutputActionView::CreateDir { path }] + self.plans_below(
                self.submodules.len(),
                path,
                config,
                emission_library,
            ) + seq![
                OutputActionView::WriteFile {
                    path: path.push("mod.rs"@),
                    contents: self.contents_text(config, emission_library),
                },
                OutputActionView::Prune { path, expected: self.expected_files() },
            ]
        }
    }

    /// The steps that emit the first `n` modules below into the directory
    /// at `path`.
    pub open spec fn plans_below(
        self,
        n: nat,
        path: Seq<Seq<char>>,
        config: ConfigView,
        emission_library: Seq<char>,
    ) -> Seq<OutputActionView>
        decreases self, n,
    {
        if n == 0 || n > self.submodules.len() {
            Seq::empty()
        } else {
            self.plans_below((n - 1) as nat, path, config, emission_library)
                + self.submodules[n - 1].1.plan(
                path.push(clean_name_spec(self.submodules[n - 1].0)),
                config,
                emission_library,
            )
        }
    }
}

/// The entries of the listing `actual` of a directory that are not among
/// `expected`: what is left over from an earlier run.
pub fn stale(actual: &Vec<String>, expected: &Vec<String>) -> (r: Vec<String>)
    ensures
        r.deep_view() == stale_entries(actual.deep_view(), expected.deep_view()),
{
    let mut out: Vec<String> = Vec::new();
    let mut i: usize = 0;
    proof {
        assert(out.deep_view() =~= Seq::empty());
        assert(actual.deep_view().take(0) =~= Seq::empty());
    }
    while i < actual.len()
        invariant
            i <= actual.len(),
            out.deep_view() == stale_entries(actual.deep_view().take(i as int), expected.deep_view()),
        decreases actual.len() - i,
    {
        proof {
            let next = actual.deep_view().take(i + 1);
            assert(next.drop_last() =~= actual.deep_view().take(i as int));
            assert(next.last() == actual[i as int]@);
        }
        if !contains_name(expected, actual[i].as_str()) {
            let ghost before = out.deep_view();
            out.push(actual[i].clone());
            assert(out.deep_view() =~= before.push(actual[i as int]@));
        }
        i += 1;
    }
    assert(actual.deep_view().take(actual.len() as int) =~= actual.deep_view());
    out
}

fn child_path(path: &Vec<String>, name: String) -> (r: Vec<String>)
    ensures
        r.deep_view() == path.deep_view().push(name@),
{
    let mut out = copy_names(path);
    let ghost before = out.deep_view();
    out.push(name);
    assert(out.deep_view() =~= before.push(name@));
    out
}

fn leaf_file_path(path: &Vec<String>) -> (r: Vec<String>)
    ensures
        r.deep_view() == file_path(path.deep_view()),
{
    let mut out = copy_names(path);
    match out.pop() {
        None => {
            assert(out.deep_view() =~= file_path(path.deep_view()));
        },
        Some(last) => {
            let ghost front = out.deep_view();
            assert(front =~= path.deep_view().drop_last());
            assert(last@ == path.deep_view().last());
            let mut name = last;
            name.append(".rs");
            out.push(name);
            assert(out.deep_view() =~= front.push(name@));
        },
    }
    out
}

impl Module {
    /// The entries that the directory of this module holds after it was
    /// emitted, where the module has modules below it.
    pub fn expected_files(&self) -> (r: Vec<String>)
        ensures
            r.deep_view() == self@.expected_files(),
    {
        proof {
            self.lemma_view();
        }
        let mut out: Vec<String> = Vec::new();
        let mut i: usize = 0;
        assert(out.deep_view() =~= self@.entries_below(0));
        while i < self.submodules.len()
            invariant
                i <= self.submodules.len(),
                self@.submodules.len() == self.submodules.len(),
                forall|j: int|
                    0 <= j < self.submodules.len() ==> self@.submodules[j] == (
                        self.submodules[j].0@,
                        self.submodules[j].1@,
                    ),
                out.deep_view() == self@.entries_below(i as nat),
            decreases self.submodules.len() - i,
        {
            proof {
                self.submodules[i as int].1.lemma_view();
            }
            let mut name = clean_name(self.submodules[i].0.as_str());
            if self.submodules[i].1.submodules.len() == 0 {
                name.append(".rs");
            }
            let ghost before = out.deep_view();
            out.push(name);
            assert(out.deep_view() =~= before.push(name@));
            i += 1;
        }
        let ghost before = out.deep_view();
        out.push(String::from_str("mod.rs"));
        assert(out.deep_view() =~= before.push("mod.rs"@));
        out
    }

    /// Appends the steps that emit the tree at `path` to `out`.
    pub fn push_plan(
        &self,
        out: &mut Vec<OutputAction>,
        path: &Vec<String>,
        config: &Config,
        emission_library: &str,
    )
        ensures
            final(out).deep_view() == old(out).deep_view() + self@.plan(
                path.deep_view(),
                config@,
                emission_library@,
            ),
        decreases self,
    {
        proof {
            self.lemma_view();
        }
        let ghost start = out.deep_view();
        let ghost p = path.deep_view();
        if self.submodules.len() == 0 {
            let action = OutputAction::WriteFile {
                path: leaf_file_path(path),
                contents: self.contents(config, emission_library),
            };
            out.push(action);
            assert(out.deep_view() =~= start.push(action@));
            assert(out.deep_view() =~= start + self@.plan(p, config@, emission_library@));
        } else {
            let create = OutputAction::CreateDir { path: copy_names(path) };
            out.push(create);
            assert(out.deep_view() =~= start.push(create@));
            assert(out.deep_view() =~= start + seq![OutputActionView::CreateDir { path: p }]
                + self@.plans_below(0, p, config@, emission_library@));
            let mut i: usize = 0;
            while i < self.submodules.len()
                invariant
                    i <= self.submodules.len(),
                    p == path.deep_view(),
                    self@.submodules.len() == self.submodules.len(),
                    forall|j: int|
                        0 <= j < self.submodules.len() ==> self@.submodules[j] == (
                            self.submodules[j].0@,
                            self.submodules[j].1@,
                        ),
                    out.deep_view() == start + seq![OutputActionView::CreateDir { path: p }]
                        + self@.plans_below(i as nat, p, config@, emission_library@),
                decreases self.submodules.len() - i,
            {
                let below = child_path(path, clean_name(self.submodules[i].0.as_str()));
                self.submodules[i].1.push_plan(out, &below, config, emission_library);
                i += 1;
                assert(out.deep_view() =~= start + seq![OutputActionView::CreateDir { path: p }]
                    + self@.plans_below(i as nat, p, config@, emission_library@));
            }
            let write = OutputAction::WriteFile {
                path: child_path(path, String::from_str("mod.rs")),
                contents: self.contents(config, emission_library),
            };
            let ghost before = out.deep_view();
            out.push(write);
            assert(out.deep_view() =~= before.push(write@));
            let prune = OutputAction::Prune {
                path: copy_names(path),
                expected: self.expected_files(),
            };
            out.push(prune);
            assert(out.deep_view() =~= before.push(write@).push(prune@));
            assert(out.deep_view() =~= start + self@.plan(p, config@, emission_library@));
        }
    }

    /// The steps that emit the tree at `path`, in the order in which they
    /// are to be taken. The plan depends on nothing but the tree, the path
    /// and the table: emitting an unchanged tree again writes the same
    /// files with the same contents.
    pub fn output(&self, path: &Vec<String>, config: &Config, emission_library: &str) -> (r: Vec<
        OutputAction,
    >)
        ensures
            r.deep_view() == self@.plan(path.deep_view(), config@, emission_library@),
    {
        let mut out: Vec<OutputAction> = Vec::new();
        assert(out.deep_view() =~= Seq::empty());
        self.push_plan(&mut out, path, config, emission_library);
        assert(out.deep_view() =~= self@.plan(path.deep_view(), config@, emission_library@));
        out
    }
}

/// What is stale and what is kept, entry by entry: an entry of the listing
/// is removed exactly if it is not expected, and kept exactly if it is.
pub proof fn lemma_stale_and_kept(actual: Seq<Seq<char>>, expected: Seq<Seq<char>>)
    ensures
        forall|name: Seq<char>|
            stale_entries(actual, expected).contains(name) <==> (actual.contains(name)
                && !has_name(expected, name)),
        forall|name: Seq<char>|
            kept_entries(actual, expected).contains(name) <==> (actual.contains(name) && has_name(
                expected,
                name,
            )),
    decreases actual.len(),
{
    if actual.len() > 0 {
        let front = actual.drop_last();
        let last = actual.last();
        lemma_stale_and_kept(front, expected);
        assert forall|name: Seq<char>| actual.contains(name) <==> (front.contains(name) || name
            == last) by {
            if actual.contains(name) {
                let j = choose|j: int| 0 <= j < actual.len() && actual[j] == name;
                if j < front.len() {
                    assert(front[j] == name);
                }
            }
            if front.contains(name) {
                let j = choose|j: int| 0 <= j < front.len() && front[j] == name;
                assert(actual[j] == name);
            }
            if name == last {
                assert(actual[actual.len() - 1] == name);
            }
        }
        let stale_front = stale_entries(front, expected);
        let kept_front = kept_entries(front, expected);
        assert forall|name: Seq<char>|
            stale_front.push(last).contains(name) <==> (stale_front.contains(name) || name
                == last) by {
            if stale_front.push(last).contains(name) {
                let j = choose|j: int|
                    0 <= j < stale_front.push(last).len() && stale_front.push(last)[j] == name;
                if j < stale_front.len() {
                    assert(stale_front[j] == name);
                }
            }
            if stale_front.contains(name) {
                let j = choose|j: int| 0 <= j < stale_front.len() && stale_front[j] == name;
                assert(stale_front.push(last)[j] == name);
            }
            if name == last {
                assert(stale_front.push(last)[stale_front.len() as int] == name);
            }
        }
        assert forall|name: Seq<char>|
            kept_front.push(last).contains(name) <==> (kept_front.contains(name) || name
                == last) by {
            if kept_front.push(last).contains(name) {
                let j = choose|j: int|
                    0 <= j < kept_front.push(last).len() && kept_front.push(last)[j] == name;
                if j < kept_front.len() {
                    assert(kept_front[j] == name);
                }
            }
            if kept_front.contains(name) {
                let j = choose|j: int| 0 <= j < kept_front.len() && kept_front[j] == name;
                assert(kept_front.push(last)[j] == name);
            }
            if name == last {
                assert(kept_front.push(last)[kept_front.len() as int] == name);
            }
        }
    }
}

/// A file that an earlier run left in the directory and that is not
/// expected any more is removed, and no expected file is.
pub proof fn lemma_stale_file_pruned(
    actual: Seq<Seq<char>>,
    expected: Seq<Seq<char>>,
    leftover: Seq<char>,
)
    requires
        actual.contains(leftover),
        !has_name(expected, leftover),
    ensures
        stale_entries(actual, expected).contains(leftover),
        !kept_entries(actual, expected).contains(leftover),
        forall|name: Seq<char>|
            has_name(expected, name) ==> !stale_entries(actual, expected).contains(name),
        forall|name: Seq<char>|
            has_name(expected, name) && actual.contains(name) ==> kept_entries(
                actual,
                expected,
            ).contains(name),
{
    lemma_stale_and_kept(actual, expected);
}

/// Once a directory was pruned, pruning it again for the same expected
/// files removes nothing and keeps everything: a second run on an unchanged
/// tree leaves the set of files as it is.
pub proof fn lemma_second_prune_removes_nothing(actual: Seq<Seq<char>>, expected: Seq<Seq<char>>)
    ensures
        stale_entries(kept_entries(actual, expected), expected) == Seq::<Seq<char>>::empty(),
        kept_entries(kept_entries(actual, expected), expected) == kept_entries(actual, expected),
    decreases actual.len(),
{
    if actual.len() > 0 {
        let front = actual.drop_last();
        lemma_second_prune_removes_nothing(front, expected);
        if has_name(expected, actual.last()) {
            let kept = kept_entries(actual, expected);
            assert(kept.drop_last() =~= kept_entries(front, expected));
            assert(kept.last() == actual.last());
        }
    }
}

/// Emitting the same tree to the same place under the same table gives the
/// same steps: the same files with the same contents, and the same
/// expected entries.
pub proof fn lemma_emission_repeatable(
    first: Module,
    second: Module,
    path: Seq<Seq<char>>,
    config: ConfigView,
    emission_library: Seq<char>,
)
    requires
        first@ == second@,
    ensures
        first@.plan(path, config, emission_library) == second@.plan(
            path,
            config,
            emission_library,
        ),
        first@.expected_files() == second@.expected_files(),
        first@.contents_text(config, emission_library) == second@.contents_text(
            config,
            emission_library,
        ),
{
}

} // verus!
