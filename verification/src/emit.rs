//! The text of an emitted file: the imports and statements of a module, and
//! for a module with modules below it their declarations and the items that
//! it hands on from them, each behind the features it needs.

use vstd::prelude::*;
use crate::config::{has_name, Config, ConfigView};
use crate::module::{
    clean_name,
    clean_name_spec,
    features_of,
    sorted_needs,
    Need,
    Module,
    ModuleView,
};
use crate::names::{insert_all, insert_name, insert_names, insert_sorted, sorted_names};
use crate::stmt::{Stmt, StmtView};
use crate::text::{replace_char, replace_char_spec, starts_with_char};

verus! {

/// The attribute that puts what follows behind `feature`.
pub open spec fn feature_gate(feature: Seq<char>) -> Seq<char> {
    "#[cfg(feature = \""@ + feature + "\")]"@
}

/// The import of `krate`: everything of it, under its name with
/// underscores for hyphens. It stands behind the crate's feature unless the
/// crate is among `required`.
pub open spec fn import_line(krate: Seq<char>, required: Seq<Seq<char>>) -> Seq<char> {
    (if has_name(required, krate) {
        Seq::empty()
    } else {
        feature_gate(krate) + "\n"@
    }) + "use "@ + replace_char_spec(krate, '-', '_') + "::*;\n"@
}

/// The imports of `krates`, in order.
pub open spec fn import_lines(krates: Seq<Seq<char>>, required: Seq<Seq<char>>) -> Seq<char>
    decreases krates.len(),
{
    if krates.len() == 0 {
        Seq::empty()
    } else {
        import_lines(krates.drop_last(), required) + import_line(krates.last(), required)
    }
}

/// The statements in order, each followed by an empty line.
pub open spec fn stmt_lines(stmts: Seq<StmtView>) -> Seq<char>
    decreases stmts.len(),
{
    if stmts.len() == 0 {
        Seq::empty()
    } else {
        stmt_lines(stmts.drop_last()) + stmts.last().text() + "\n"@
    }
}

/// The declaration of the module below called `name`, behind its own
/// feature. A module that is a single file is declared under a private
/// name with the path of its file.
pub open spec fn mod_line(name: Seq<char>, leaf: bool) -> Seq<char> {
    let clean = clean_name_spec(name);
    feature_gate(clean) + (if leaf {
        "#["@ + "path = \""@ + clean + ".rs\"]\nmod __"@ + clean + ";\n"@
    } else {
        "mod "@ + clean + ";\n"@
    })
}

/// The features in the form in which a gate lists them.
pub open spec fn gate_list(features: Seq<Seq<char>>) -> Seq<char>
    decreases features.len(),
{
    if features.len() == 0 {
        Seq::empty()
    } else {
        (if features.len() == 1 {
            Seq::empty()
        } else {
            gate_list(features.drop_last()) + ", "@
        }) + "feature = \""@ + features.last() + "\""@
    }
}

/// The attribute that requires all of `features`, on a line of its own;
/// no text where `features` is empty.
pub open spec fn gate_text(features: Seq<Seq<char>>) -> Seq<char> {
    if features.len() == 0 {
        Seq::empty()
    } else if features.len() == 1 {
        feature_gate(features[0]) + "\n"@
    } else {
        "#[cfg(all("@ + gate_list(features) + "))]\n"@
    }
}

/// The features that handing on the item of `stmt` from the file
/// `file_name` depends on: the feature of every item that the statement
/// needs, and the feature of the file itself.
pub open spec fn gate_features(
    stmt: StmtView,
    file_name: Seq<char>,
    config: ConfigView,
    emission_library: Seq<char>,
) -> Seq<Seq<char>> {
    insert_sorted(
        sorted_names(features_of(config, emission_library, stmt.required_items())),
        clean_name_spec(file_name),
    )
}

/// How far an item is handed on: an item whose name starts with an
/// underscore stays within the crate.
pub open spec fn visibility(item: Seq<char>) -> Seq<char> {
    if item.len() > 0 && item[0] == '_' {
        "pub(crate)"@
    } else {
        "pub"@
    }
}

/// The line that hands on the item of `stmt`, behind its gate; no text for
/// a statement that provides no item.
pub open spec fn reexport_line(
    stmt: StmtView,
    file_name: Seq<char>,
    config: ConfigView,
    emission_library: Seq<char>,
) -> Seq<char> {
    match stmt.provided_item() {
        None => Seq::empty(),
        Some(item) => gate_text(gate_features(stmt, file_name, config, emission_library))
            + visibility(item) + " use self::__"@ + clean_name_spec(file_name) + "::{"@ + item
            + "};"@,
    }
}

/// The lines that hand on the items of `stmts`, in order.
pub open spec fn reexport_lines(
    stmts: Seq<StmtView>,
    file_name: Seq<char>,
    config: ConfigView,
    emission_library: Seq<char>,
) -> Seq<char>
    decreases stmts.len(),
{
    if stmts.len() == 0 {
        Seq::empty()
    } else {
        reexport_lines(stmts.drop_last(), file_name, config, emission_library) + reexport_line(
            stmts.last(),
            file_name,
            config,
            emission_library,
        )
    }
}

/// The banner that every emitted file starts with.
pub open spec fn banner() -> Seq<char> {
    "//! This file has been automatically "@
        + "generated by `objc2`'s `header-translator`.\n//! DO NOT EDIT\n"@
}

impl ModuleView {
    /// The crates that the module's file imports: those that its statements
    /// ask for and those that are always depended on, in ascending order.
    pub open spec fn import_names(self, config: ConfigView, emission_library: Seq<char>) -> Seq<
        Seq<char>,
    > {
        insert_all(
            self.imports(config, emission_library),
            config.required_dependencies(emission_library),
        )
    }

    /// The part of the module's file that holds its own statements: the
    /// prelude, the imports, and the statements in the order they were
    /// added.
    pub open spec fn stmts_text(self, config: ConfigView, emission_library: Seq<char>) -> Seq<
        char,
    > {
        "use objc2::__framework_prelude::*;\n"@ + import_lines(
            self.import_names(config, emission_library),
            config.required_dependencies(emission_library),
        ) + "\nuse crate::*;\n\n"@ + stmt_lines(self.stmts)
    }

    /// The declarations of the first `n` modules below.
    pub open spec fn mod_lines(self, n: nat) -> Seq<char>
        decreases n,
    {
        if n == 0 || n > self.submodules.len() {
            Seq::empty()
        } else {
            self.mod_lines((n - 1) as nat) + mod_line(
                self.submodules[n - 1].0,
                self.submodules[n - 1].1.submodules.len() == 0,
            )
        }
    }

    /// The lines that hand on the items of the first `n` modules below.
    pub open spec fn reexports(self, n: nat, config: ConfigView, emission_library: Seq<char>)
        -> Seq<char>
        decreases n,
    {
        if n == 0 || n > self.submodules.len() {
            Seq::empty()
        } else {
            self.reexports((n - 1) as nat, config, emission_library) + reexport_lines(
                self.submodules[n - 1].1.stmts,
                self.submodules[n - 1].0,
                config,
                emission_library,
            )
        }
    }

    /// The part of the module's file that is about the modules below it:
    /// their declarations, and the items it hands on from them.
    pub open spec fn modules_text(self, config: ConfigView, emission_library: Seq<char>) -> Seq<
        char,
    > {
        self.mod_lines(self.submodules.len()) + "\n"@ + self.reexports(
            self.submodules.len(),
            config,
            emission_library,
        )
    }

    /// The module's file: the banner, the part about the modules below
    /// where there are any, and the part with the module's own statements
    /// where it has any or has no modules below.
    pub open spec fn contents_text(self, config: ConfigView, emission_library: Seq<char>) -> Seq<
        char,
    > {
        banner() + (if self.submodules.len() > 0 {
            self.modules_text(config, emission_library)
        } else {
            Seq::empty()
        }) + (if self.stmts.len() > 0 || self.submodules.len() == 0 {
            self.stmts_text(config, emission_library)
        } else {
            Seq::empty()
        })
    }
}

fn push_feature_gate(out: &mut String, feature: &str)
    ensures
        final(out)@ == old(out)@ + feature_gate(feature@),
{
    out.append("#[cfg(feature = \"");
    out.append(feature);
    out.append("\")]");
    assert(out@ =~= old(out)@ + feature_gate(feature@));
}

fn push_import_lines(out: &mut String, krates: &Vec<String>, config: &Config, library: &str)
    ensures
        final(out)@ == old(out)@ + import_lines(
            krates.deep_view(),
            config@.required_dependencies(library@),
        ),
{
    let ghost required = config@.required_dependencies(library@);
    let mut i: usize = 0;
    assert(krates.deep_view().take(0) =~= Seq::empty());
    assert(out@ =~= old(out)@ + import_lines(krates.deep_view().take(0), required));
    while i < krates.len()
        invariant
            i <= krates.len(),
            required == config@.required_dependencies(library@),
            out@ == old(out)@ + import_lines(krates.deep_view().take(i as int), required),
        decreases krates.len() - i,
    {
        let ghost before = out@;
        if !config.is_required_dependency(library, krates[i].as_str()) {
            push_feature_gate(out, krates[i].as_str());
            out.append("\n");
        }
        out.append("use ");
        let name = replace_char(krates[i].as_str(), '-', '_');
        out.append(name.as_str());
        out.append("::*;\n");
        proof {
            let next = krates.deep_view().take(i + 1);
            assert(next.drop_last() =~= krates.deep_view().take(i as int));
            assert(next.last() == krates[i as int]@);
            assert(out@ =~= before + import_line(krates[i as int]@, required));
            assert(out@ =~= old(out)@ + import_lines(next, required));
        }
        i += 1;
    }
    assert(krates.deep_view().take(krates.len() as int) =~= krates.deep_view());
}

fn push_stmt_lines(out: &mut String, stmts: &Vec<Stmt>)
    ensures
        final(out)@ == old(out)@ + stmt_lines(stmts.deep_view()),
{
    let mut i: usize = 0;
    assert(stmts.deep_view().take(0) =~= Seq::empty());
    assert(out@ =~= old(out)@ + stmt_lines(stmts.deep_view().take(0)));
    while i < stmts.len()
        invariant
            i <= stmts.len(),
            out@ == old(out)@ + stmt_lines(stmts.deep_view().take(i as int)),
        decreases stmts.len() - i,
    {
        stmts[i].push_text(out);
        out.append("\n");
        proof {
            let next = stmts.deep_view().take(i + 1);
            assert(next.drop_last() =~= stmts.deep_view().take(i as int));
            assert(next.last() == stmts[i as int]@);
            assert(out@ =~= old(out)@ + stmt_lines(next));
        }
        i += 1;
    }
    assert(stmts.deep_view().take(stmts.len() as int) =~= stmts.deep_view());
}

fn push_mod_line(out: &mut String, name: &str, leaf: bool)
    ensures
        final(out)@ == old(out)@ + mod_line(name@, leaf),
{
    let clean = clean_name(name);
    push_feature_gate(out, clean.as_str());
    if leaf {
        out.append("#[");
        out.append("path = \"");
        out.append(clean.as_str());
        out.append(".rs\"]\nmod __");
        out.append(clean.as_str());
        out.append(";\n");
    } else {
        out.append("mod ");
        out.append(clean.as_str());
        out.append(";\n");
    }
    assert(out@ =~= old(out)@ + mod_line(name@, leaf));
}

fn push_gate_list(out: &mut String, features: &Vec<String>)
    ensures
        final(out)@ == old(out)@ + gate_list(features.deep_view()),
{
    let mut i: usize = 0;
    assert(features.deep_view().take(0) =~= Seq::empty());
    assert(out@ =~= old(out)@ + gate_list(features.deep_view().take(0)));
    while i < features.len()
        invariant
            i <= features.len(),
            out@ == old(out)@ + gate_list(features.deep_view().take(i as int)),
        decreases features.len() - i,
    {
        if i > 0 {
            out.append(", ");
        }
        out.append("feature = \"");
        out.append(features[i].as_str());
        out.append("\"");
        proof {
            let next = features.deep_view().take(i + 1);
            assert(next.drop_last() =~= features.deep_view().take(i as int));
            assert(next.last() == features[i as int]@);
            assert(out@ =~= old(out)@ + gate_list(next));
        }
        i += 1;
    }
    assert(features.deep_view().take(features.len() as int) =~= features.deep_view());
}

fn push_gate(out: &mut String, features: &Vec<String>)
    ensures
        final(out)@ == old(out)@ + gate_text(features.deep_view()),
{
    if features.len() == 0 {
        assert(out@ =~= old(out)@ + gate_text(features.deep_view()));
    } else if features.len() == 1 {
        push_feature_gate(out, features[0].as_str());
        out.append("\n");
        assert(features.deep_view()[0] == features[0]@);
        assert(out@ =~= old(out)@ + gate_text(features.deep_view()));
    } else {
        out.append("#[cfg(all(");
        push_gate_list(out, features);
        out.append("))]\n");
        assert(out@ =~= old(out)@ + gate_text(features.deep_view()));
    }
}

/// The features that handing on the item of `stmt` from the file
/// `file_name` depends on, in ascending order.
pub fn reexport_features(stmt: &Stmt, file_name: &str, config: &Config, emission_library: &str)
    -> (r: Vec<String>)
    ensures
        r.deep_view() == gate_features(stmt@, file_name@, config@, emission_library@),
{
    let items = stmt.required_items();
    let mut features = sorted_needs(&items, config, emission_library, Need::Feature);
    insert_name(&mut features, clean_name(file_name));
    features
}

fn push_reexport_line(
    out: &mut String,
    stmt: &Stmt,
    file_name: &str,
    config: &Config,
    emission_library: &str,
)
    ensures
        final(out)@ == old(out)@ + reexport_line(stmt@, file_name@, config@, emission_library@),
{
    match stmt.provided_item() {
        None => {
            assert(out@ =~= old(out)@ + reexport_line(
                stmt@,
                file_name@,
                config@,
                emission_library@,
            ));
        },
        Some(item) => {
            let features = reexport_features(stmt, file_name, config, emission_library);
            push_gate(out, &features);
            if starts_with_char(item.as_str(), '_') {
                out.append("pub(crate)");
            } else {
                out.append("pub");
            }
            out.append(" use self::__");
            let clean = clean_name(file_name);
            out.append(clean.as_str());
            out.append("::{");
            out.append(item.as_str());
            out.append("};");
            assert(out@ =~= old(out)@ + reexport_line(
                stmt@,
                file_name@,
                config@,
                emission_library@,
            ));
        },
    }
}

fn push_reexport_lines(
    out: &mut String,
    stmts: &Vec<Stmt>,
    file_name: &str,
    config: &Config,
    emission_library: &str,
)
    ensures
        final(out)@ == old(out)@ + reexport_lines(
            stmts.deep_view(),
            file_name@,
            config@,
            emission_library@,
        ),
{
    let mut i: usize = 0;
    assert(stmts.deep_view().take(0) =~= Seq::empty());
    assert(out@ =~= old(out)@ + reexport_lines(
        stmts.deep_view().take(0),
        file_name@,
        config@,
        emission_library@,
    ));
    while i < stmts.len()
        invariant
            i <= stmts.len(),
            out@ == old(out)@ + reexport_lines(
                stmts.deep_view().take(i as int),
                file_name@,
                config@,
                emission_library@,
            ),
        decreases stmts.len() - i,
    {
        push_reexport_line(out, &stmts[i], file_name, config, emission_library);
        proof {
            let next = stmts.deep_view().take(i + 1);
            assert(next.drop_last() =~= stmts.deep_view().take(i as int));
            assert(next.last() == stmts[i as int]@);
            assert(out@ =~= old(out)@ + reexport_lines(
                next,
                file_name@,
                config@,
                emission_library@,
            ));
        }
        i += 1;
    }
    assert(stmts.deep_view().take(stmts.len() as int) =~= stmts.deep_view());
}

impl Module {
    /// Appends the part of the module's file that holds its own statements
    /// to `out`.
    pub fn push_stmts(&self, out: &mut String, config: &Config, emission_library: &str)
        ensures
            final(out)@ == old(out)@ + self@.stmts_text(config@, emission_library@),
    {
        proof {
            self.lemma_view();
        }
        out.append("use objc2::__framework_prelude::*;\n");
        let mut krates = self.imports(config, emission_library);
        match config.required_of(emission_library) {
            Some(required) => {
                insert_names(&mut krates, required);
            },
            None => {},
        }
        assert(krates.deep_view() == self@.import_names(config@, emission_library@));
        push_import_lines(out, &krates, config, emission_library);
        out.append("\nuse crate::*;\n\n");
        push_stmt_lines(out, &self.stmts);
        assert(out@ =~= old(out)@ + self@.stmts_text(config@, emission_library@));
    }

    /// The part of the module's file that holds its own statements.
    pub fn stmts(&self, config: &Config, emission_library: &str) -> (r: String)
        ensures
            r@ == self@.stmts_text(config@, emission_library@),
    {
        let mut out = String::new();
        self.push_stmts(&mut out, config, emission_library);
        assert(out@ =~= self@.stmts_text(config@, emission_library@));
        out
    }

    /// Appends the part of the module's file that is about the modules
    /// below it to `out`.
    pub fn push_modules(&self, out: &mut String, config: &Config, emission_library: &str)
        ensures
            final(out)@ == old(out)@ + self@.modules_text(config@, emission_library@),
    {
        proof {
            self.lemma_view();
        }
        let mut i: usize = 0;
        assert(out@ =~= old(out)@ + self@.mod_lines(0));
        while i < self.submodules.len()
            invariant
                i <= self.submodules.len(),
                self@.submodules.len() == self.submodules.len(),
                forall|j: int|
                    0 <= j < self.submodules.len() ==> self@.submodules[j] == (
                        self.submodules[j].0@,
                        self.submodules[j].1@,
                    ),
                out@ == old(out)@ + self@.mod_lines(i as nat),
            decreases self.submodules.len() - i,
        {
            proof {
                self.submodules[i as int].1.lemma_view();
            }
            push_mod_line(
                out,
                self.submodules[i].0.as_str(),
                self.submodules[i].1.submodules.len() == 0,
            );
            i += 1;
            assert(out@ =~= old(out)@ + self@.mod_lines(i as nat));
        }
        out.append("\n");
        let ghost head = out@;
        let mut i: usize = 0;
        assert(out@ =~= head + self@.reexports(0, config@, emission_library@));
        while i < self.submodules.len()
            invariant
                i <= self.submodules.len(),
                self@.submodules.len() == self.submodules.len(),
                forall|j: int|
                    0 <= j < self.submodules.len() ==> self@.submodules[j] == (
                        self.submodules[j].0@,
                        self.submodules[j].1@,
                    ),
                head == old(out)@ + self@.mod_lines(self.submodules.len() as nat) + "\n"@,
                out@ == head + self@.reexports(i as nat, config@, emission_library@),
            decreases self.submodules.len() - i,
        {
            proof {
                self.submodules[i as int].1.lemma_view();
            }
            push_reexport_lines(
                out,
                &self.submodules[i].1.stmts,
                self.submodules[i].0.as_str(),
                config,
                emission_library,
            );
            i += 1;
            assert(out@ =~= head + self@.reexports(i as nat, config@, emission_library@));
        }
        assert(out@ =~= old(out)@ + self@.modules_text(config@, emission_library@));
    }

    /// The part of the module's file that is about the modules below it.
    pub fn modules(&self, config: &Config, emission_library: &str) -> (r: String)
        ensures
            r@ == self@.modules_text(config@, emission_library@),
    {
        let mut out = String::new();
        self.push_modules(&mut out, config, emission_library);
        assert(out@ =~= self@.modules_text(config@, emission_library@));
        out
    }

    /// The module's file.
    pub fn contents(&self, config: &Config, emission_library: &str) -> (r: String)
        ensures
            r@ == self@.contents_text(config@, emission_library@),
    {
        proof {
            self.lemma_view();
        }
        let mut out = String::new();
        out.append("//! This file has been automatically ");
        out.append("generated by `objc2`'s `header-translator`.\n//! DO NOT EDIT\n");
        assert(out@ =~= banner());
        if self.submodules.len() > 0 {
            self.push_modules(&mut out, config, emission_library);
        }
        if self.stmts.len() > 0 || self.submodules.len() == 0 {
            self.push_stmts(&mut out, config, emission_library);
        }
        assert(out@ =~= self@.contents_text(config@, emission_library@));
        out
    }
}

/// A feature as a condition names it.
pub open spec fn quoted_feature(feature: Seq<char>) -> Seq<char> {
    "feature = \""@ + feature + "\""@
}

/// Whether `text` holds `part` somewhere.
pub open spec fn holds_text(text: Seq<char>, part: Seq<char>) -> bool {
    exists|before: Seq<char>, after: Seq<char>| text == before + part + after
}

proof fn lemma_gate_list_names(features: Seq<Seq<char>>, i: int)
    requires
        0 <= i < features.len(),
    ensures
        holds_text(gate_list(features), quoted_feature(features[i])),
    decreases features.len(),
{
    let last = quoted_feature(features.last());
    if i == features.len() - 1 {
        let before = if features.len() == 1 {
            Seq::<char>::empty()
        } else {
            gate_list(features.drop_last()) + ", "@
        };
        assert(gate_list(features) =~= before + last + Seq::<char>::empty());
    } else {
        lemma_gate_list_names(features.drop_last(), i);
        let part = quoted_feature(features[i]);
        let (before, after) = choose|before: Seq<char>, after: Seq<char>|
            gate_list(features.drop_last()) == before + part + after;
        assert(gate_list(features) =~= before + part + (after + ", "@ + last));
    }
}

/// The condition that is written for a list of features names each of
/// them.
pub proof fn lemma_gate_text_names(features: Seq<Seq<char>>, i: int)
    requires
        0 <= i < features.len(),
    ensures
        holds_text(gate_text(features), quoted_feature(features[i])),
{
    let part = quoted_feature(features[i]);
    if features.len() == 1 {
        reveal_strlit("#[cfg(feature = \"");
        reveal_strlit("#[cfg(");
        reveal_strlit("feature = \"");
        reveal_strlit("\")]");
        reveal_strlit("\"");
        reveal_strlit(")]");
        reveal_strlit("\n");
        assert("#[cfg(feature = \""@ =~= "#[cfg("@ + "feature = \""@);
        assert("\")]"@ =~= "\""@ + ")]"@);
        assert(gate_text(features) =~= "#[cfg("@ + part + (")]"@ + "\n"@));
    } else {
        lemma_gate_list_names(features, i);
        let (before, after) = choose|before: Seq<char>, after: Seq<char>|
            gate_list(features) == before + part + after;
        assert(gate_text(features) =~= ("#[cfg(all("@ + before) + part + (after + "))]\n"@));
    }
}

/// Feature conditions follow from requirements: where a statement of the
/// file `file_name` needs an item that asks for `feature`, the line that
/// hands the statement's item on stands behind a condition that names
/// `feature`, and the feature of the file itself.
pub proof fn lemma_reexport_gated(
    stmt: StmtView,
    file_name: Seq<char>,
    config: ConfigView,
    emission_library: Seq<char>,
    i: int,
)
    requires
        0 <= i < stmt.required_items().len(),
        crate::module::feature_of(config, emission_library, stmt.required_items()[i]) is Some,
    ensures
        gate_features(stmt, file_name, config, emission_library).contains(
            crate::module::feature_of(config, emission_library, stmt.required_items()[i])->Some_0,
        ),
        gate_features(stmt, file_name, config, emission_library).contains(
            clean_name_spec(file_name),
        ),
        holds_text(
            gate_text(gate_features(stmt, file_name, config, emission_library)),
            quoted_feature(
                crate::module::feature_of(
                    config,
                    emission_library,
                    stmt.required_items()[i],
                )->Some_0,
            ),
        ),
        holds_text(
            gate_text(gate_features(stmt, file_name, config, emission_library)),
            quoted_feature(clean_name_spec(file_name)),
        ),
{
    let items = stmt.required_items();
    let found = features_of(config, emission_library, items);
    let feature = crate::module::feature_of(config, emission_library, items[i])->Some_0;
    let gate = gate_features(stmt, file_name, config, emission_library);
    crate::names::lemma_sorted_names(found);
    crate::names::lemma_insert_sorted(sorted_names(found), clean_name_spec(file_name));
    assert(found[i] == Some(feature));
    assert(found.contains(Some(feature)));
    assert(sorted_names(found).contains(feature));
    assert(gate == insert_sorted(sorted_names(found), clean_name_spec(file_name)));
    assert(insert_sorted(sorted_names(found), clean_name_spec(file_name)).contains(feature));
    assert(insert_sorted(sorted_names(found), clean_name_spec(file_name)).contains(
        clean_name_spec(file_name),
    ));
    let at = choose|at: int| 0 <= at < gate.len() && gate[at] == feature;
    lemma_gate_text_names(gate, at);
    let own = choose|own: int| 0 <= own < gate.len() && gate[own] == clean_name_spec(file_name);
    lemma_gate_text_names(gate, own);
}

/// An item is handed on behind a condition that is never empty: it names
/// at least the feature of the item's own file.
pub proof fn lemma_reexport_gate_not_empty(
    stmt: StmtView,
    file_name: Seq<char>,
    config: ConfigView,
    emission_library: Seq<char>,
)
    ensures
        gate_features(stmt, file_name, config, emission_library).len() > 0,
        gate_features(stmt, file_name, config, emission_library).contains(
            clean_name_spec(file_name),
        ),
        crate::text::strictly_sorted(gate_features(stmt, file_name, config, emission_library)),
{
    let found = features_of(config, emission_library, stmt.required_items());
    crate::names::lemma_sorted_names(found);
    crate::names::lemma_insert_sorted(sorted_names(found), clean_name_spec(file_name));
    assert(insert_sorted(sorted_names(found), clean_name_spec(file_name)).contains(
        clean_name_spec(file_name),
    ));
}

/// Where no item asks for a feature there is no condition: items of the
/// library itself aside, a statement that needs only what is always
/// depended on, or what the table does not know, stands behind nothing.
pub proof fn lemma_no_feature_no_gate(
    items: Seq<Seq<char>>,
    config: ConfigView,
    emission_library: Seq<char>,
)
    requires
        forall|i: int|
            0 <= i < items.len() ==> crate::module::feature_of(
                config,
                emission_library,
                #[trigger] items[i],
            ) is None,
    ensures
        sorted_names(features_of(config, emission_library, items)) == Seq::<Seq<char>>::empty(),
        gate_text(sorted_names(features_of(config, emission_library, items))) == Seq::<
            char,
        >::empty(),
    decreases items.len(),
{
    let found = features_of(config, emission_library, items);
    crate::names::lemma_sorted_names(found);
    let sorted = sorted_names(found);
    if sorted.len() > 0 {
        assert(sorted.contains(sorted[0]));
        assert(found.contains(Some(sorted[0])));
        let j = choose|j: int| 0 <= j < found.len() && found[j] == Some(sorted[0]);
        assert(crate::module::feature_of(config, emission_library, items[j]) is None);
    }
    assert(sorted =~= Seq::empty());
}

/// The import of a crate that is always depended on stands behind no
/// condition; the import of any other crate stands behind the crate's
/// feature.
pub proof fn lemma_import_gated(krate: Seq<char>, required: Seq<Seq<char>>)
    ensures
        has_name(required, krate) ==> import_line(krate, required) == "use "@ + replace_char_spec(
            krate,
            '-',
            '_',
        ) + "::*;\n"@,
        !has_name(required, krate) ==> import_line(krate, required) == feature_gate(krate) + "\n"@
            + "use "@ + replace_char_spec(krate, '-', '_') + "::*;\n"@,
{
    if has_name(required, krate) {
        assert(import_line(krate, required) =~= "use "@ + replace_char_spec(krate, '-', '_')
            + "::*;\n"@);
    }
}

} // verus!
