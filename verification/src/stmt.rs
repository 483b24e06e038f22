//! Statements: the normalized form of one top-level declaration, how an
//! entity is classified into one, and how one is written as source text.

use vstd::prelude::*;
use crate::availability::Availability;
use crate::expr::{Expr, ExprView};
use crate::method::{Method, MethodView};
use crate::property::{Property, PropertyView};
use crate::rust_type::{
    same_fields,
    same_names,
    GenericType,
    GenericTypeView,
    Ty,
    TyView,
};
use crate::text::str_equal;
use crate::unexposed_macro::UnexposedMacro;

verus! {

/// A member of a class, category or protocol.
#[derive(Debug, Clone, PartialEq, Eq)]
pub enum MethodOrProperty {
    Method(Method),
    Property(Property),
}

/// The mathematical value of a [`MethodOrProperty`].
pub enum MemberView {
    Method(MethodView),
    Property(PropertyView),
}

impl View for MethodOrProperty {
    type V = MemberView;

    open spec fn view(&self) -> MemberView {
        match self {
            MethodOrProperty::Method(method) => MemberView::Method(method@),
            MethodOrProperty::Property(property) => MemberView::Property(property@),
        }
    }
}

impl DeepView for MethodOrProperty {
    type V = MemberView;

    open spec fn deep_view(&self) -> MemberView {
        self.view()
    }
}

impl MemberView {
    /// The member as generated source declares it.
    pub open spec fn text(self) -> Seq<char> {
        match self {
            MemberView::Method(method) => method.text(),
            MemberView::Property(property) => property.text(),
        }
    }
}

impl MethodOrProperty {
    /// Appends the member's declaration to `out`.
    pub fn push_text(&self, out: &mut String)
        ensures
            final(out)@ == old(out)@ + self@.text(),
    {
        match self {
            MethodOrProperty::Method(method) => method.push_text(out),
            MethodOrProperty::Property(property) => property.push_text(out),
        }
    }

    /// The member's declaration as text.
    pub fn render(&self) -> (r: String)
        ensures
            r@ == self@.text(),
    {
        let mut out = String::new();
        self.push_text(&mut out);
        assert(out@ =~= self@.text());
        out
    }

    /// Whether the two members have the same value.
    pub fn same(&self, other: &MethodOrProperty) -> (r: bool)
        ensures
            r == (self@ == other@),
    {
        match (self, other) {
            (MethodOrProperty::Method(a), MethodOrProperty::Method(b)) => a.same(b),
            (MethodOrProperty::Property(a), MethodOrProperty::Property(b)) => a.same(b),
            _ => false,
        }
    }
}

/// The traits that a generated class type derives, as the text between the
/// parentheses of the derive attribute.
#[derive(Debug, Clone, PartialEq, Eq)]
pub struct Derives(pub String);

impl View for Derives {
    type V = Seq<char>;

    open spec fn view(&self) -> Seq<char> {
        self.0@
    }
}

impl DeepView for Derives {
    type V = Seq<char>;

    open spec fn deep_view(&self) -> Seq<char> {
        self.0@
    }
}

impl Default for Derives {
    fn default() -> (r: Derives)
        ensures
            r@ == Derives::default_text(),
    {
        Derives(String::from_str("Debug, PartialEq, Eq, Hash"))
    }
}

impl Derives {
    /// The derive set of a class for which none is configured.
    pub open spec fn default_text() -> Seq<char> {
        "Debug, PartialEq, Eq, Hash"@
    }

    /// The derive attribute that holds the set `derives`.
    pub open spec fn attribute(derives: Seq<char>) -> Seq<char> {
        "#[derive("@ + derives + ")]"@
    }

    /// A derive set given as the text between the parentheses.
    pub fn new(text: &str) -> (r: Derives)
        ensures
            r@ == text@,
    {
        Derives(String::from_str(text))
    }

    /// Appends the derive attribute to `out`.
    pub fn push_text(&self, out: &mut String)
        ensures
            final(out)@ == old(out)@ + Derives::attribute(self@),
    {
        out.append("#[derive(");
        out.append(self.0.as_str());
        out.append(")]");
        assert(out@ =~= old(out)@ + Derives::attribute(self@));
    }

    /// The derive attribute as text.
    pub fn render(&self) -> (r: String)
        ensures
            r@ == Derives::attribute(self@),
    {
        let mut out = String::new();
        self.push_text(&mut out);
        assert(out@ =~= Derives::attribute(self@));
        out
    }

    /// Whether the two derive sets are written the same.
    pub fn same(&self, other: &Derives) -> (r: bool)
        ensures
            r == (self@ == other@),
    {
        str_equal(self.0.as_str(), other.0.as_str())
    }
}

/// The normalized form of one top-level declaration.
#[derive(Debug, Clone, PartialEq, Eq)]
pub enum Stmt {
    /// A class with its superclass, adopted protocols and members.
    ClassDecl {
        ty: GenericType,
        availability: Availability,
        /// The parent class; `None` for a root class.
        superclass: Option<GenericType>,
        protocols: Vec<String>,
        methods: Vec<MethodOrProperty>,
        derives: Derives,
    },
    /// A category: members added to an existing class.
    CategoryDecl {
        class_ty: GenericType,
        availability: Availability,
        /// Some categories have no name.
        name: Option<String>,
        protocols: Vec<String>,
        methods: Vec<MethodOrProperty>,
    },
    /// A protocol with the protocols it adopts and its members.
    ProtocolDecl {
        name: String,
        availability: Availability,
        protocols: Vec<String>,
        methods: Vec<MethodOrProperty>,
    },
    /// A struct with its fields in declaration order.
    StructDecl { name: String, boxable: bool, fields: Vec<(String, Ty)> },
    /// An enumeration with its constants in declaration order.
    EnumDecl {
        name: Option<String>,
        ty: Ty,
        kind: Option<UnexposedMacro>,
        variants: Vec<(String, Expr)>,
    },
    /// A global variable, with its value where it is a constant.
    VarDecl { name: String, ty: Ty, value: Option<Expr> },
    /// A global function; `body` is set for a function that carries its
    /// body.
    FnDecl { name: String, arguments: Vec<(String, Ty)>, result_type: Ty, body: Option<()> },
    /// Another name for a type.
    AliasDecl { name: String, ty: Ty },
}

/// The mathematical value of a [`Stmt`].
pub enum StmtView {
    ClassDecl {
        ty: GenericTypeView,
        availability: Availability,
        superclass: Option<GenericTypeView>,
        protocols: Seq<Seq<char>>,
        methods: Seq<MemberView>,
        derives: Seq<char>,
    },
    CategoryDecl {
        class_ty: GenericTypeView,
        availability: Availability,
        name: Option<Seq<char>>,
        protocols: Seq<Seq<char>>,
        methods: Seq<MemberView>,
    },
    ProtocolDecl {
        name: Seq<char>,
        availability: Availability,
        protocols: Seq<Seq<char>>,
        methods: Seq<MemberView>,
    },
    StructDecl { name: Seq<char>, boxable: bool, fields: Seq<(Seq<char>, TyView)> },
    EnumDecl {
        name: Option<Seq<char>>,
        ty: TyView,
        kind: Option<UnexposedMacro>,
        variants: Seq<(Seq<char>, ExprView)>,
    },
    VarDecl { name: Seq<char>, ty: TyView, value: Option<ExprView> },
    FnDecl { name: Seq<char>, arguments: Seq<(Seq<char>, TyView)>, result_type: TyView, body: bool },
    AliasDecl { name: Seq<char>, ty: TyView },
}

impl View for Stmt {
    type V = StmtView;

    open spec fn view(&self) -> StmtView {
        match self {
            Stmt::ClassDecl { ty, availability, superclass, protocols, methods, derives } => {
                StmtView::ClassDecl {
                    ty: ty@,
                    availability: *availability,
                    superclass: superclass.deep_view(),
                    protocols: protocols.deep_view(),
                    methods: methods.deep_view(),
                    derives: derives@,
                }
            },
            Stmt::CategoryDecl { class_ty, availability, name, protocols, methods } => {
                StmtView::CategoryDecl {
                    class_ty: class_ty@,
                    availability: *availability,
                    name: name.deep_view(),
                    protocols: protocols.deep_view(),
                    methods: methods.deep_view(),
                }
            },
            Stmt::ProtocolDecl { name, availability, protocols, methods } => {
                StmtView::ProtocolDecl {
                    name: name@,
                    availability: *availability,
                    protocols: protocols.deep_view(),
                    methods: methods.deep_view(),
                }
            },
            Stmt::StructDecl { name, boxable, fields } => StmtView::StructDecl {
                name: name@,
                boxable: *boxable,
                fields: fields.deep_view(),
            },
            Stmt::EnumDecl { name, ty, kind, variants } => StmtView::EnumDecl {
                name: name.deep_view(),
                ty: ty@,
                kind: *kind,
                variants: variants.deep_view(),
            },
            Stmt::VarDecl { name, ty, value } => StmtView::VarDecl {
                name: name@,
                ty: ty@,
                value: value.deep_view(),
            },
            Stmt::FnDecl { name, arguments, result_type, body } => StmtView::FnDecl {
                name: name@,
                arguments: arguments.deep_view(),
                result_type: result_type@,
                body: body is Some,
            },
            Stmt::AliasDecl { name, ty } => StmtView::AliasDecl { name: name@, ty: ty@ },
        }
    }
}

impl DeepView for Stmt {
    type V = StmtView;

    open spec fn deep_view(&self) -> StmtView {
        self.view()
    }
}

/// How two statements that should be equal differ.
#[derive(Debug, Clone, Copy, PartialEq, Eq, Structural)]
pub enum Mismatch {
    /// Both are classes, both categories or both protocols, and `index` is
    /// the first position at which their member lists differ: the two
    /// members there differ, or only one of the lists has a member there.
    Member { index: usize },
    /// They differ, and not in a member.
    Statement,
}

/// Whether `i` is the first position at which the two lists differ: they
/// agree before `i`, and at `i` they hold different members, or one of them
/// has ended and the other has not.
pub open spec fn is_first_difference(a: Seq<MemberView>, b: Seq<MemberView>, i: int) -> bool {
    &&& 0 <= i <= a.len()
    &&& i <= b.len()
    &&& forall|j: int| 0 <= j < i ==> a[j] == b[j]
    &&& if i < a.len() && i < b.len() {
        a[i] != b[i]
    } else {
        a.len() != b.len()
    }
}

impl StmtView {
    /// The members of a class, category or protocol; no other statement has
    /// members.
    pub open spec fn members(self) -> Option<Seq<MemberView>> {
        match self {
            StmtView::ClassDecl { methods, .. } => Some(methods),
            StmtView::CategoryDecl { methods, .. } => Some(methods),
            StmtView::ProtocolDecl { methods, .. } => Some(methods),
            _ => None,
        }
    }

    /// Whether the two statements are of one kind that has members: both
    /// classes, both categories or both protocols.
    pub open spec fn same_kind_with_members(self, other: StmtView) -> bool {
        ||| self is ClassDecl && other is ClassDecl
        ||| self is CategoryDecl && other is CategoryDecl
        ||| self is ProtocolDecl && other is ProtocolDecl
    }
}

/// Whether both statements are of one kind that has members, and their
/// member lists first differ at `i`.
pub open spec fn differing_member(a: StmtView, b: StmtView, i: int) -> bool {
    a.same_kind_with_members(b) && is_first_difference(a.members()->Some_0, b.members()->Some_0, i)
}

/// Two lists first differ at one position at most.
pub proof fn lemma_first_difference_unique(
    a: Seq<MemberView>,
    b: Seq<MemberView>,
    i: int,
    j: int,
)
    requires
        is_first_difference(a, b, i),
        is_first_difference(a, b, j),
    ensures
        i == j,
{
    if i < j {
        assert(a[i] == b[i]);
    }
    if j < i {
        assert(a[j] == b[j]);
    }
}

/// Whether the two lists of members have the same value.
pub fn same_members(a: &Vec<MethodOrProperty>, b: &Vec<MethodOrProperty>) -> (r: bool)
    ensures
        r == (a.deep_view() == b.deep_view()),
{
    if a.len() != b.len() {
        assert(a.deep_view().len() != b.deep_view().len());
        return false;
    }
    let mut i: usize = 0;
    while i < a.len()
        invariant
            i <= a.len(),
            a.len() == b.len(),
            forall|j: int| 0 <= j < i ==> a.deep_view()[j] == b.deep_view()[j],
        decreases a.len() - i,
    {
        if !a[i].same(&b[i]) {
            assert(a.deep_view()[i as int] != b.deep_view()[i as int]);
            return false;
        }
        i += 1;
    }
    assert(a.deep_view() =~= b.deep_view());
    true
}

/// The first position at which the two lists differ, if they differ.
pub fn first_member_difference(a: &Vec<MethodOrProperty>, b: &Vec<MethodOrProperty>) -> (r:
    Option<usize>)
    ensures
        match r {
            Some(i) => is_first_difference(a.deep_view(), b.deep_view(), i as int),
            None => a.deep_view() == b.deep_view() && forall|i: int|
                !is_first_difference(a.deep_view(), b.deep_view(), i),
        },
{
    let mut i: usize = 0;
    while i < a.len() && i < b.len()
        invariant
            i <= a.len(),
            i <= b.len(),
            forall|j: int| 0 <= j < i ==> a.deep_view()[j] == b.deep_view()[j],
        decreases a.len() - i,
    {
        if !a[i].same(&b[i]) {
            return Some(i);
        }
        i += 1;
    }
    if a.len() != b.len() {
        Some(i)
    } else {
        proof {
            assert(a.deep_view() =~= b.deep_view());
        }
        None
    }
}

fn same_variants(a: &Vec<(String, Expr)>, b: &Vec<(String, Expr)>) -> (r: bool)
    ensures
        r == (a.deep_view() == b.deep_view()),
{
    if a.len() != b.len() {
        assert(a.deep_view().len() != b.deep_view().len());
        return false;
    }
    let mut i: usize = 0;
    while i < a.len()
        invariant
            i <= a.len(),
            a.len() == b.len(),
            forall|j: int| 0 <= j < i ==> a.deep_view()[j] == b.deep_view()[j],
        decreases a.len() - i,
    {
        if !str_equal(a[i].0.as_str(), b[i].0.as_str()) || !a[i].1.same(&b[i].1) {
            assert(a.deep_view()[i as int] != b.deep_view()[i as int]);
            return false;
        }
        i += 1;
    }
    assert(a.deep_view() =~= b.deep_view());
    true
}

fn same_optional_name(a: &Option<String>, b: &Option<String>) -> (r: bool)
    ensures
        r == (a.deep_view() == b.deep_view()),
{
    match (a, b) {
        (Some(a), Some(b)) => str_equal(a.as_str(), b.as_str()),
        (None, None) => true,
        _ => false,
    }
}

fn same_optional_type(a: &Option<GenericType>, b: &Option<GenericType>) -> (r: bool)
    ensures
        r == (a.deep_view() == b.deep_view()),
{
    match (a, b) {
        (Some(a), Some(b)) => a.same(b),
        (None, None) => true,
        _ => false,
    }
}

fn same_optional_expr(a: &Option<Expr>, b: &Option<Expr>) -> (r: bool)
    ensures
        r == (a.deep_view() == b.deep_view()),
{
    match (a, b) {
        (Some(a), Some(b)) => a.same(b),
        (None, None) => true,
        _ => false,
    }
}

fn same_kind(a: Option<UnexposedMacro>, b: Option<UnexposedMacro>) -> (r: bool)
    ensures
        r == (a == b),
{
    match (a, b) {
        (Some(a), Some(b)) => a == b,
        (None, None) => true,
        _ => false,
    }
}

impl Stmt {
    /// Whether the two statements have the same value.
    pub fn same(&self, other: &Stmt) -> (r: bool)
        ensures
            r == (self@ == other@),
    {
        match (self, other) {
            (
                Stmt::ClassDecl { ty, availability, superclass, protocols, methods, derives },
                Stmt::ClassDecl {
                    ty: other_ty,
                    availability: other_availability,
                    superclass: other_superclass,
                    protocols: other_protocols,
                    methods: other_methods,
                    derives: other_derives,
                },
            ) => {
                ty.same(other_ty) && *availability == *other_availability && same_optional_type(
                    superclass,
                    other_superclass,
                ) && same_names(protocols, other_protocols) && same_members(methods, other_methods)
                    && derives.same(other_derives)
            },
            (
                Stmt::CategoryDecl { class_ty, availability, name, protocols, methods },
                Stmt::CategoryDecl {
                    class_ty: other_class_ty,
                    availability: other_availability,
                    name: other_name,
                    protocols: other_protocols,
                    methods: other_methods,
                },
            ) => {
                class_ty.same(other_class_ty) && *availability == *other_availability
                    && same_optional_name(name, other_name) && same_names(
                    protocols,
                    other_protocols,
                ) && same_members(methods, other_methods)
            },
            (
                Stmt::ProtocolDecl { name, availability, protocols, methods },
                Stmt::ProtocolDecl {
                    name: other_name,
                    availability: other_availability,
                    protocols: other_protocols,
                    methods: other_methods,
                },
            ) => {
                str_equal(name.as_str(), other_name.as_str()) && *availability
                    == *other_availability && same_names(protocols, other_protocols)
                    && same_members(methods, other_methods)
            },
            (
                Stmt::StructDecl { name, boxable, fields },
                Stmt::StructDecl { name: other_name, boxable: other_boxable, fields: other_fields },
            ) => {
                str_equal(name.as_str(), other_name.as_str()) && *boxable == *other_boxable
                    && same_fields(fields, other_fields)
            },
            (
                Stmt::EnumDecl { name, ty, kind, variants },
                Stmt::EnumDecl {
                    name: other_name,
                    ty: other_ty,
                    kind: other_kind,
                    variants: other_variants,
                },
            ) => {
                same_optional_name(name, other_name) && ty.same(other_ty) && same_kind(
                    *kind,
                    *other_kind,
                ) && same_variants(variants, other_variants)
            },
            (
                Stmt::VarDecl { name, ty, value },
                Stmt::VarDecl { name: other_name, ty: other_ty, value: other_value },
            ) => {
                str_equal(name.as_str(), other_name.as_str()) && ty.same(other_ty)
                    && same_optional_expr(value, other_value)
            },
            (
                Stmt::FnDecl { name, arguments, result_type, body },
                Stmt::FnDecl {
                    name: other_name,
                    arguments: other_arguments,
                    result_type: other_result_type,
                    body: other_body,
                },
            ) => {
                str_equal(name.as_str(), other_name.as_str()) && same_fields(
                    arguments,
                    other_arguments,
                ) && result_type.same(other_result_type) && body.is_some() == other_body.is_some()
            },
            (Stmt::AliasDecl { name, ty }, Stmt::AliasDecl { name: other_name, ty: other_ty }) => {
                str_equal(name.as_str(), other_name.as_str()) && ty.same(other_ty)
            },
            _ => false,
        }
    }

    /// Compares two statements that are expected to be equal. Where they
    /// are not, and both are classes, both categories or both protocols
    /// whose member lists differ, the first position at which the lists
    /// differ is named; any other difference is reported as one of the
    /// statements.
    pub fn compare(&self, other: &Stmt) -> (r: Result<(), Mismatch>)
        ensures
            r is Ok <==> self@ == other@,
            forall|index: usize|
                r == Err::<(), Mismatch>(Mismatch::Member { index }) <==> differing_member(
                    self@,
                    other@,
                    index as int,
                ),
    {
        if self.same(other) {
            proof {
                if self@.same_kind_with_members(other@) {
                    assert forall|i: int|
                        !is_first_difference(
                            self@.members()->Some_0,
                            other@.members()->Some_0,
                            i,
                        ) by {}
                }
            }
            return Ok(());
        }
        let found = match (self, other) {
            (
                Stmt::ClassDecl { methods, .. },
                Stmt::ClassDecl { methods: other_methods, .. },
            ) => first_member_difference(methods, other_methods),
            (
                Stmt::CategoryDecl { methods, .. },
                Stmt::CategoryDecl { methods: other_methods, .. },
            ) => first_member_difference(methods, other_methods),
            (
                Stmt::ProtocolDecl { methods, .. },
                Stmt::ProtocolDecl { methods: other_methods, .. },
            ) => first_member_difference(methods, other_methods),
            _ => None,
        };
        match found {
            Some(index) => {
                proof {
                    assert forall|k: usize|
                        differing_member(self@, other@, k as int) implies k == index by {
                        lemma_first_difference_unique(
                            self@.members()->Some_0,
                            other@.members()->Some_0,
                            k as int,
                            index as int,
                        );
                    }
                }
                Err(Mismatch::Member { index })
            },
            None => Err(Mismatch::Statement),
        }
    }
}

} // verus!
