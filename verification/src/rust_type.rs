//! Type references as the statements hold them: generic type instantiations,
//! and types tagged with the position they were read in.

use vstd::prelude::*;
use crate::entity::{TypeDescriptor, TypeDescriptorView, TypeKind};
use crate::text::{handle_reserved_spec, push_handle_reserved, str_equal};

verus! {

/// A named type with its generic arguments, each again such a type.
#[derive(Debug)]
pub struct GenericType {
    pub name: String,
    pub generics: Vec<GenericType>,
}

/// The mathematical value of a [`GenericType`].
pub struct GenericTypeView {
    pub name: Seq<char>,
    pub generics: Seq<GenericTypeView>,
}

impl View for GenericType {
    type V = GenericTypeView;

    open spec fn view(&self) -> GenericTypeView {
        self.value()
    }
}

impl DeepView for GenericType {
    type V = GenericTypeView;

    open spec fn deep_view(&self) -> GenericTypeView {
        self.view()
    }
}

impl Clone for GenericType {
    fn clone(&self) -> (r: GenericType)
        ensures
            r@ == self@,
    {
        self.duplicate()
    }
}

impl PartialEq for GenericType {
    fn eq(&self, other: &GenericType) -> (r: bool) {
        self.same(other)
    }
}

impl vstd::std_specs::cmp::PartialEqSpecImpl for GenericType {
    open spec fn obeys_eq_spec() -> bool {
        true
    }

    open spec fn eq_spec(&self, other: &GenericType) -> bool {
        self@ == other@
    }
}

impl Eq for GenericType {

}

impl GenericTypeView {
    /// The type as generated source writes it: the name, and where there are
    /// arguments, each of them followed by a comma, between angle brackets.
    pub open spec fn text(self) -> Seq<char>
        decreases self, self.generics.len() + 1,
    {
        if self.generics.len() == 0 {
            self.name
        } else {
            self.name + "<"@ + self.arguments_text(self.generics.len()) + ">"@
        }
    }

    /// The first `n` arguments, each followed by a comma.
    pub open spec fn arguments_text(self, n: nat) -> Seq<char>
        decreases self, n,
    {
        if n == 0 || n > self.generics.len() {
            Seq::empty()
        } else {
            self.arguments_text((n - 1) as nat) + self.generics[n - 1].text() + ","@
        }
    }
}

impl GenericType {
    /// The value of the type: its name, and the values of its arguments.
    pub open spec fn value(&self) -> GenericTypeView
        decreases self,
    {
        GenericTypeView {
            name: self.name@,
            generics: Seq::new(
                self.generics.len() as nat,
                |i: int|
                    if 0 <= i < self.generics.len() {
                        self.generics[i].value()
                    } else {
                        arbitrary()
                    },
            ),
        }
    }

    /// The view, field by field.
    pub proof fn lemma_view(&self)
        ensures
            self@.name == self.name@,
            self@.generics.len() == self.generics.len(),
            forall|i: int| 0 <= i < self.generics.len() ==> self@.generics[i] == self.generics[i]@,
    {
    }

    /// A type without generic arguments.
    pub fn new(name: String) -> (r: GenericType)
        ensures
            r@ == (GenericTypeView { name: name@, generics: Seq::empty() }),
    {
        let r = GenericType { name, generics: Vec::new() };
        assert(r@.generics =~= Seq::empty());
        r
    }

    /// Appends the type's text to `out`.
    pub fn push_text(&self, out: &mut String)
        ensures
            final(out)@ == old(out)@ + self@.text(),
        decreases self,
    {
        out.append(self.name.as_str());
        if self.generics.len() > 0 {
            out.append("<");
            let mut i: usize = 0;
            while i < self.generics.len()
                invariant
                    i <= self.generics.len(),
                    out@ == old(out)@ + self@.name + "<"@ + self@.arguments_text(i as nat),
                decreases self.generics.len() - i,
            {
                self.generics[i].push_text(out);
                out.append(",");
                i += 1;
                assert(out@ =~= old(out)@ + self@.name + "<"@ + self@.arguments_text(i as nat));
            }
            out.append(">");
            assert(out@ =~= old(out)@ + self@.text());
        } else {
            assert(out@ =~= old(out)@ + self@.text());
        }
    }

    /// Whether the two types have the same value.
    pub fn same(&self, other: &GenericType) -> (r: bool)
        ensures
            r == (self@ == other@),
        decreases self,
    {
        if !str_equal(self.name.as_str(), other.name.as_str()) {
            return false;
        }
        if self.generics.len() != other.generics.len() {
            assert(self@.generics.len() != other@.generics.len());
            return false;
        }
        let mut i: usize = 0;
        while i < self.generics.len()
            invariant
                i <= self.generics.len(),
                self.generics.len() == other.generics.len(),
                forall|j: int| 0 <= j < i ==> self.generics[j]@ == other.generics[j]@,
            decreases self.generics.len() - i,
        {
            if !self.generics[i].same(&other.generics[i]) {
                assert(self@.generics[i as int] != other@.generics[i as int]);
                return false;
            }
            i += 1;
        }
        assert(self@.generics =~= other@.generics);
        true
    }

    /// A copy with the same value.
    pub fn duplicate(&self) -> (r: GenericType)
        ensures
            r@ == self@,
        decreases self,
    {
        let mut generics: Vec<GenericType> = Vec::new();
        let mut i: usize = 0;
        while i < self.generics.len()
            invariant
                i <= self.generics.len(),
                generics.len() == i,
                forall|j: int| 0 <= j < i ==> generics[j]@ == self.generics[j]@,
            decreases self.generics.len() - i,
        {
            generics.push(self.generics[i].duplicate());
            i += 1;
        }
        let r = GenericType { name: self.name.clone(), generics };
        assert(r@.generics =~= self@.generics);
        r
    }
}

/// The position a type was read in. It decides how the type is written.
#[derive(Debug, Clone, Copy, PartialEq, Eq, Structural)]
pub enum TyMode {
    MethodArgument,
    MethodReturn,
    FnArgument,
    FnReturn,
    StructField,
    Static,
    Typedef,
    Enum,
    Property,
}

/// A type together with the position it was read in.
#[derive(Debug, Clone, PartialEq, Eq)]
pub struct Ty {
    pub mode: TyMode,
    pub kind: TypeKind,
    pub name: String,
}

/// The mathematical value of a [`Ty`].
pub struct TyView {
    pub mode: TyMode,
    pub kind: TypeKind,
    pub name: Seq<char>,
}

impl View for Ty {
    type V = TyView;

    open spec fn view(&self) -> TyView {
        TyView { mode: self.mode, kind: self.kind, name: self.name@ }
    }
}

impl DeepView for Ty {
    type V = TyView;

    open spec fn deep_view(&self) -> TyView {
        self.view()
    }
}

impl TyView {
    /// The type `desc` read in position `mode`.
    pub open spec fn parse(desc: TypeDescriptorView, mode: TyMode) -> TyView {
        TyView { mode, kind: desc.kind, name: desc.name }
    }

    /// Whether the type stands where a function or method gives its result.
    pub open spec fn is_return(self) -> bool {
        self.mode == TyMode::FnReturn || self.mode == TyMode::MethodReturn
    }

    /// The type as generated source writes it. A result type is written
    /// with its arrow, and not at all where there is no result; every other
    /// type is written as its name.
    pub open spec fn text(self) -> Seq<char> {
        if self.is_return() {
            if self.kind == TypeKind::Void {
                Seq::empty()
            } else {
                " -> "@ + self.name
            }
        } else {
            self.name
        }
    }

    /// The underlying type of a typedef, unless the statements have no form
    /// for it.
    pub open spec fn parse_typedef(desc: TypeDescriptorView) -> Option<TyView> {
        if desc.kind == TypeKind::FunctionPointer {
            None
        } else {
            Some(TyView::parse(desc, TyMode::Typedef))
        }
    }
}

impl Ty {
    /// Reads `desc` as a type in position `mode`.
    pub fn parse(desc: &TypeDescriptor, mode: TyMode) -> (r: Ty)
        ensures
            r@ == TyView::parse(desc@, mode),
    {
        Ty { mode, kind: desc.kind, name: desc.name.clone() }
    }

    /// Reads the type of a struct field.
    pub fn parse_struct_field(desc: &TypeDescriptor) -> (r: Ty)
        ensures
            r@ == TyView::parse(desc@, TyMode::StructField),
    {
        Ty::parse(desc, TyMode::StructField)
    }

    /// Reads the result type of a function.
    pub fn parse_function_return(desc: &TypeDescriptor) -> (r: Ty)
        ensures
            r@ == TyView::parse(desc@, TyMode::FnReturn),
    {
        Ty::parse(desc, TyMode::FnReturn)
    }

    /// Reads the type of a global variable.
    pub fn parse_static(desc: &TypeDescriptor) -> (r: Ty)
        ensures
            r@ == TyView::parse(desc@, TyMode::Static),
    {
        Ty::parse(desc, TyMode::Static)
    }

    /// Reads the underlying type of an enumeration.
    pub fn parse_enum(desc: &TypeDescriptor) -> (r: Ty)
        ensures
            r@ == TyView::parse(desc@, TyMode::Enum),
    {
        Ty::parse(desc, TyMode::Enum)
    }

    /// Reads the underlying type of a typedef; `None` for a type that the
    /// statements have no form for.
    pub fn parse_typedef(desc: &TypeDescriptor) -> (r: Option<Ty>)
        ensures
            r.deep_view() == TyView::parse_typedef(desc@),
    {
        if desc.kind == TypeKind::FunctionPointer {
            None
        } else {
            Some(Ty::parse(desc, TyMode::Typedef))
        }
    }

    /// Appends the type's text to `out`.
    pub fn push_text(&self, out: &mut String)
        ensures
            final(out)@ == old(out)@ + self@.text(),
    {
        if self.mode == TyMode::FnReturn || self.mode == TyMode::MethodReturn {
            if self.kind == TypeKind::Void {
                assert(out@ =~= old(out)@ + self@.text());
            } else {
                out.append(" -> ");
                out.append(self.name.as_str());
                assert(out@ =~= old(out)@ + self@.text());
            }
        } else {
            out.append(self.name.as_str());
        }
    }

    /// Whether the two types have the same value.
    pub fn same(&self, other: &Ty) -> (r: bool)
        ensures
            r == (self@ == other@),
    {
        self.mode == other.mode && self.kind == other.kind && str_equal(
            self.name.as_str(),
            other.name.as_str(),
        )
    }
}

/// Whether the two lists of named types have the same value.
pub fn same_fields(a: &Vec<(String, Ty)>, b: &Vec<(String, Ty)>) -> (r: bool)
    ensures
        r == (a.deep_view() == b.deep_view()),
{
    if a.len() != b.len() {
        assert(a.deep_view().len() != b.deep_view().len());
        return false;
    }
    let mut i: usize = 0;
    while i < a.len()
        invariant
            i <= a.len(),
            a.len() == b.len(),
            forall|j: int| 0 <= j < i ==> a.deep_view()[j] == b.deep_view()[j],
        decreases a.len() - i,
    {
        if !str_equal(a[i].0.as_str(), b[i].0.as_str()) || !a[i].1.same(&b[i].1) {
            assert(a.deep_view()[i as int] != b.deep_view()[i as int]);
            return false;
        }
        i += 1;
    }
    assert(a.deep_view() =~= b.deep_view());
    true
}

/// Whether the two lists of names have the same value.
pub fn same_names(a: &Vec<String>, b: &Vec<String>) -> (r: bool)
    ensures
        r == (a.deep_view() == b.deep_view()),
{
    if a.len() != b.len() {
        assert(a.deep_view().len() != b.deep_view().len());
        return false;
    }
    let mut i: usize = 0;
    while i < a.len()
        invariant
            i <= a.len(),
            a.len() == b.len(),
            forall|j: int| 0 <= j < i ==> a.deep_view()[j] == b.deep_view()[j],
        decreases a.len() - i,
    {
        if !str_equal(a[i].as_str(), b[i].as_str()) {
            assert(a.deep_view()[i as int] != b.deep_view()[i as int]);
            return false;
        }
        i += 1;
    }
    assert(a.deep_view() =~= b.deep_view());
    true
}

/// The named types in `fields`, each written as its name, a colon and its
/// type and followed by a comma. A name that generated source cannot use
/// gets an underscore.
pub open spec fn parameters_text(fields: Seq<(Seq<char>, TyView)>) -> Seq<char>
    decreases fields.len(),
{
    if fields.len() == 0 {
        Seq::empty()
    } else {
        parameters_text(fields.drop_last()) + handle_reserved_spec(fields.last().0) + ": "@
            + fields.last().1.text() + ","@
    }
}

/// Appends the named types in `fields` to `out`, as a parameter list.
pub fn push_parameters(out: &mut String, fields: &Vec<(String, Ty)>)
    ensures
        final(out)@ == old(out)@ + parameters_text(fields.deep_view()),
{
    let mut i: usize = 0;
    assert(fields.deep_view().take(0) =~= Seq::empty());
    assert(out@ =~= old(out)@ + parameters_text(fields.deep_view().take(0)));
    while i < fields.len()
        invariant
            i <= fields.len(),
            out@ == old(out)@ + parameters_text(fields.deep_view().take(i as int)),
        decreases fields.len() - i,
    {
        let ghost before = out@;
        push_handle_reserved(out, fields[i].0.as_str());
        out.append(": ");
        fields[i].1.push_text(out);
        out.append(",");
        proof {
            let next = fields.deep_view().take(i + 1);
            assert(next.drop_last() =~= fields.deep_view().take(i as int));
            assert(next.last() == fields.deep_view()[i as int]);
            assert(out@ =~= old(out)@ + parameters_text(next));
        }
        i += 1;
    }
    assert(fields.deep_view().take(fields.len() as int) =~= fields.deep_view());
}

} // verus!
