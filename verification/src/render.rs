//! The statement renderer: the source text that declares a statement.
//! Fields, constants, parameters and members are written in the order the
//! statement holds them.

use vstd::prelude::*;
use crate::expr::{Expr, ExprView};
use crate::rust_type::{
    parameters_text,
    push_parameters,
    GenericType,
    GenericTypeView,
    Ty,
    TyView,
};
use crate::stmt::{Derives, MemberView, MethodOrProperty, Stmt, StmtView};
use crate::text::{decimal, push_decimal, starts_with_char};
use crate::unexposed_macro::UnexposedMacro;

verus! {

/// Every type of `generics` in order, each followed by `suffix`.
pub open spec fn joined(generics: Seq<GenericTypeView>, suffix: Seq<char>) -> Seq<char>
    decreases generics.len(),
{
    if generics.len() == 0 {
        Seq::empty()
    } else {
        joined(generics.drop_last(), suffix) + generics.last().text() + suffix
    }
}

/// The two lists between the angle brackets of a generic class: its type
/// parameters, each followed by `first`, and then one ownership parameter
/// for each of them, named after it and followed by `second`.
pub open spec fn generic_list(
    generics: Seq<GenericTypeView>,
    first: Seq<char>,
    second: Seq<char>,
) -> Seq<char> {
    if generics.len() == 0 {
        Seq::empty()
    } else {
        "<"@ + joined(generics, first) + joined(generics, second) + ">"@
    }
}

/// A class type where it is used: its name and, for a generic class, its
/// type and ownership parameters.
pub open spec fn class_type_text(ty: GenericTypeView) -> Seq<char> {
    ty.name + generic_list(ty.generics, ", "@, "Ownership, "@)
}

/// The parameters that an impl block for a generic class declares.
pub open spec fn impl_parameters_text(generics: Seq<GenericTypeView>) -> Seq<char> {
    generic_list(generics, ": Message, "@, "Ownership: Ownership, "@)
}

/// The parameters that a generic class declares, each with its default:
/// any object for a type, shared for an ownership.
pub open spec fn class_parameters_text(generics: Seq<GenericTypeView>) -> Seq<char> {
    generic_list(generics, ": Message = Object, "@, "Ownership: Ownership = Shared, "@)
}

/// The marker fields of a generic class for its first `n` parameters.
pub open spec fn marker_fields_text(generics: Seq<GenericTypeView>, n: nat) -> Seq<char>
    decreases n,
{
    if n == 0 || n > generics.len() {
        Seq::empty()
    } else {
        marker_fields_text(generics, (n - 1) as nat) + "_inner"@ + decimal((n - 1) as nat)
            + ": PhantomData<*mut ("@ + generics[n - 1].text() + ", "@ + generics[n - 1].text()
            + "Ownership)>,\n"@
    }
}

/// The members of a block, each on a line of its own.
pub open spec fn members_text(members: Seq<MemberView>) -> Seq<char>
    decreases members.len(),
{
    if members.len() == 0 {
        Seq::empty()
    } else {
        members_text(members.drop_last()) + members.last().text() + "\n"@
    }
}

/// One field of a struct on a line of its own. A field is public unless
/// its name starts with an underscore.
pub open spec fn field_line(field: (Seq<char>, TyView)) -> Seq<char> {
    "        "@ + (if field.0.len() > 0 && field.0[0] == '_' {
        Seq::empty()
    } else {
        "pub "@
    }) + field.0 + ": "@ + field.1.text() + ",\n"@
}

/// The fields of a struct, one to a line, in the order of the list.
pub open spec fn fields_text(fields: Seq<(Seq<char>, TyView)>) -> Seq<char>
    decreases fields.len(),
{
    if fields.len() == 0 {
        Seq::empty()
    } else {
        fields_text(fields.drop_last()) + field_line(fields.last())
    }
}

/// Every field has its line in the text.
pub proof fn lemma_field_written(fields: Seq<(Seq<char>, TyView)>, i: int) -> (around: (
    Seq<char>,
    Seq<char>,
))
    requires
        0 <= i < fields.len(),
    ensures
        fields_text(fields) == around.0 + field_line(fields[i]) + around.1,
    decreases fields.len(),
{
    if i == fields.len() - 1 {
        let around = (fields_text(fields.drop_last()), Seq::<char>::empty());
        assert(fields_text(fields) =~= around.0 + field_line(fields[i]) + around.1);
        around
    } else {
        let inner = lemma_field_written(fields.drop_last(), i);
        let around = (inner.0, inner.1 + field_line(fields.last()));
        assert(fields_text(fields) =~= around.0 + field_line(fields[i]) + around.1);
        around
    }
}

/// Declaration order is kept: the line of a field stands in the text before
/// the line of every field that comes after it in the list.
pub proof fn lemma_fields_in_order(fields: Seq<(Seq<char>, TyView)>, i: int, j: int) -> (parts: (
    Seq<char>,
    Seq<char>,
    Seq<char>,
))
    requires
        0 <= i < j < fields.len(),
    ensures
        fields_text(fields) == parts.0 + field_line(fields[i]) + parts.1 + field_line(fields[j])
            + parts.2,
    decreases fields.len(),
{
    if j == fields.len() - 1 {
        let inner = lemma_field_written(fields.drop_last(), i);
        let parts = (inner.0, inner.1, Seq::<char>::empty());
        assert(fields_text(fields) =~= parts.0 + field_line(fields[i]) + parts.1 + field_line(
            fields[j],
        ) + parts.2);
        parts
    } else {
        let inner = lemma_fields_in_order(fields.drop_last(), i, j);
        let parts = (inner.0, inner.1, inner.2 + field_line(fields.last()));
        assert(fields_text(fields) =~= parts.0 + field_line(fields[i]) + parts.1 + field_line(
            fields[j],
        ) + parts.2);
        parts
    }
}

/// The constants of an enumeration, one to a line.
pub open spec fn variants_text(variants: Seq<(Seq<char>, ExprView)>) -> Seq<char>
    decreases variants.len(),
{
    if variants.len() == 0 {
        Seq::empty()
    } else {
        variants_text(variants.drop_last()) + "        "@ + variants.last().0 + " = "@
            + variants.last().1.text() + ",\n"@
    }
}

/// The supertype of a root class.
pub open spec fn root_supertype() -> GenericTypeView {
    GenericTypeView { name: "Object"@, generics: Seq::empty() }
}

/// The block that holds the members of a class or category.
pub open spec fn methods_block(class_ty: GenericTypeView, members: Seq<MemberView>) -> Seq<char> {
    "    unsafe impl"@ + impl_parameters_text(class_ty.generics) + " "@ + class_type_text(class_ty)
        + " {\n"@ + members_text(members) + "    }\n);\n"@
}

/// The declaration of a class type: the macro that declares it, its derive
/// attribute, and the struct with its parameters and marker fields.
pub open spec fn class_head(ty: GenericTypeView, derives: Seq<char>) -> Seq<char> {
    if ty.generics.len() == 0 {
        "extern_class!(\n    "@ + Derives::attribute(derives) + "\n    pub struct "@ + ty.name
            + ";\n"@
    } else {
        "__inner_extern_class!(\n    "@ + Derives::attribute(derives) + "\n    pub struct "@
            + ty.name + class_parameters_text(ty.generics) + " {\n"@ + marker_fields_text(
            ty.generics,
            ty.generics.len(),
        ) + "notunwindsafe: PhantomData<&'static mut ()>,\n}\n"@
    }
}

/// The relation of a class to its supertype; a root class has the root
/// supertype.
pub open spec fn class_relation(ty: GenericTypeView, superclass: Option<GenericTypeView>) -> Seq<
    char,
> {
    "\n    unsafe impl"@ + impl_parameters_text(ty.generics) + " ClassType for "@ + class_type_text(
        ty,
    ) + " {\n        type Super = "@ + class_type_text(
        match superclass {
            Some(parent) => parent,
            None => root_supertype(),
        },
    ) + ";\n    }\n);\n\nextern_methods!(\n"@
}

/// The head of a function: its name and parameter list, and its result.
pub open spec fn fn_head(
    name: Seq<char>,
    arguments: Seq<(Seq<char>, TyView)>,
    result_type: TyView,
) -> Seq<char> {
    "    pub unsafe fn "@ + name + "("@ + parameters_text(arguments) + ")"@ + result_type.text()
}

/// The text of a category: its block of members, under its name where it
/// has one.
pub open spec fn category_text(
    class_ty: GenericTypeView,
    name: Option<Seq<char>>,
    methods: Seq<MemberView>,
) -> Seq<char> {
    "extern_methods!(\n"@ + (match name {
        Some(name) => "    /// "@ + name + "\n"@,
        None => Seq::empty(),
    }) + methods_block(class_ty, methods)
}

/// The text of a protocol.
pub open spec fn protocol_text(name: Seq<char>, methods: Seq<MemberView>) -> Seq<char> {
    "extern_protocol!(\n    pub struct "@ + name + ";\n\n    unsafe impl ProtocolType for "@ + name
        + " {\n"@ + members_text(methods) + "    }\n);\n"@
}

/// The text of a struct.
pub open spec fn struct_text(name: Seq<char>, fields: Seq<(Seq<char>, TyView)>) -> Seq<char> {
    "extern_struct!(\n    pub struct "@ + name + " {\n"@ + fields_text(fields) + "    }\n);\n"@
}

/// The text of an enumeration: the macro of its kind, its underlying type,
/// its name where it has one, and its constants.
pub open spec fn enum_text(
    name: Option<Seq<char>>,
    ty: TyView,
    kind: Option<UnexposedMacro>,
    variants: Seq<(Seq<char>, ExprView)>,
) -> Seq<char> {
    UnexposedMacro::macro_name(kind) + "!(\n    #[underlying("@ + ty.text()
        + ")]\n    pub enum "@ + (match name {
        Some(name) => name + " "@,
        None => Seq::empty(),
    }) + "{\n"@ + variants_text(variants) + "    }\n);\n"@
}

/// The text of a global variable, with its value where it has one.
pub open spec fn var_text(name: Seq<char>, ty: TyView, value: Option<ExprView>) -> Seq<char> {
    "extern_static!("@ + name + ": "@ + ty.text() + (match value {
        Some(expr) => " = "@ + expr.text(),
        None => Seq::empty(),
    }) + ");\n"@
}

/// The text of a global function. One that carries its body is written
/// with a placeholder for it.
pub open spec fn fn_text(
    name: Seq<char>,
    arguments: Seq<(Seq<char>, TyView)>,
    result_type: TyView,
    body: bool,
) -> Seq<char> {
    if body {
        "inline_fn!(\n"@ + fn_head(name, arguments, result_type) + " {\n        todo"@
            + "!()\n    }\n);\n"@
    } else {
        "extern_fn!(\n"@ + fn_head(name, arguments, result_type) + ";\n);\n"@
    }
}

/// The text of a type alias.
pub open spec fn alias_text(name: Seq<char>, ty: TyView) -> Seq<char> {
    "pub type "@ + name + " = "@ + ty.text() + ";\n"@
}

/// The text of a class: the declaration of the type, its relation to its
/// supertype, and its members.
pub open spec fn class_text(
    ty: GenericTypeView,
    superclass: Option<GenericTypeView>,
    methods: Seq<MemberView>,
    derives: Seq<char>,
) -> Seq<char> {
    class_head(ty, derives) + class_relation(ty, superclass) + methods_block(ty, methods)
}

impl StmtView {
    /// The source text that declares the statement.
    pub open spec fn text(self) -> Seq<char> {
        match self {
            StmtView::ClassDecl { ty, availability, superclass, protocols, methods, derives } => {
                class_text(ty, superclass, methods, derives)
            },
            StmtView::CategoryDecl { class_ty, availability, name, protocols, methods } => {
                category_text(class_ty, name, methods)
            },
            StmtView::ProtocolDecl { name, availability, protocols, methods } => protocol_text(
                name,
                methods,
            ),
            StmtView::StructDecl { name, boxable, fields } => struct_text(name, fields),
            StmtView::EnumDecl { name, ty, kind, variants } => enum_text(name, ty, kind, variants),
            StmtView::VarDecl { name, ty, value } => var_text(name, ty, value),
            StmtView::FnDecl { name, arguments, result_type, body } => fn_text(
                name,
                arguments,
                result_type,
                body,
            ),
            StmtView::AliasDecl { name, ty } => alias_text(name, ty),
        }
    }
}

fn push_joined(out: &mut String, generics: &Vec<GenericType>, suffix: &str)
    ensures
        final(out)@ == old(out)@ + joined(generics.deep_view(), suffix@),
{
    let mut i: usize = 0;
    assert(generics.deep_view().take(0) =~= Seq::empty());
    assert(out@ =~= old(out)@ + joined(generics.deep_view().take(0), suffix@));
    while i < generics.len()
        invariant
            i <= generics.len(),
            out@ == old(out)@ + joined(generics.deep_view().take(i as int), suffix@),
        decreases generics.len() - i,
    {
        generics[i].push_text(out);
        out.append(suffix);
        proof {
            let next = generics.deep_view().take(i + 1);
            assert(next.drop_last() =~= generics.deep_view().take(i as int));
            assert(next.last() == generics[i as int]@);
            assert(out@ =~= old(out)@ + joined(next, suffix@));
        }
        i += 1;
    }
    assert(generics.deep_view().take(generics.len() as int) =~= generics.deep_view());
}

fn push_generic_list(out: &mut String, generics: &Vec<GenericType>, first: &str, second: &str)
    ensures
        final(out)@ == old(out)@ + generic_list(generics.deep_view(), first@, second@),
{
    if generics.len() > 0 {
        out.append("<");
        push_joined(out, generics, first);
        push_joined(out, generics, second);
        out.append(">");
        assert(out@ =~= old(out)@ + generic_list(generics.deep_view(), first@, second@));
    } else {
        assert(out@ =~= old(out)@ + generic_list(generics.deep_view(), first@, second@));
    }
}

fn push_class_type(out: &mut String, ty: &GenericType)
    ensures
        final(out)@ == old(out)@ + class_type_text(ty@),
{
    proof {
        ty.lemma_view();
        assert(ty.generics.deep_view() =~= ty@.generics);
    }
    out.append(ty.name.as_str());
    push_generic_list(out, &ty.generics, ", ", "Ownership, ");
    assert(out@ =~= old(out)@ + class_type_text(ty@));
}

fn push_marker_fields(out: &mut String, generics: &Vec<GenericType>)
    ensures
        final(out)@ == old(out)@ + marker_fields_text(
            generics.deep_view(),
            generics.deep_view().len(),
        ),
{
    let mut i: usize = 0;
    assert(out@ =~= old(out)@ + marker_fields_text(generics.deep_view(), 0));
    while i < generics.len()
        invariant
            i <= generics.len(),
            out@ == old(out)@ + marker_fields_text(generics.deep_view(), i as nat),
        decreases generics.len() - i,
    {
        out.append("_inner");
        push_decimal(out, i as u64);
        out.append(": PhantomData<*mut (");
        generics[i].push_text(out);
        out.append(", ");
        generics[i].push_text(out);
        out.append("Ownership)>,\n");
        i += 1;
        assert(out@ =~= old(out)@ + marker_fields_text(generics.deep_view(), i as nat));
    }
}

fn push_members(out: &mut String, members: &Vec<MethodOrProperty>)
    ensures
        final(out)@ == old(out)@ + members_text(members.deep_view()),
{
    let mut i: usize = 0;
    assert(members.deep_view().take(0) =~= Seq::empty());
    assert(out@ =~= old(out)@ + members_text(members.deep_view().take(0)));
    while i < members.len()
        invariant
            i <= members.len(),
            out@ == old(out)@ + members_text(members.deep_view().take(i as int)),
        decreases members.len() - i,
    {
        members[i].push_text(out);
        out.append("\n");
        proof {
            let next = members.deep_view().take(i + 1);
            assert(next.drop_last() =~= members.deep_view().take(i as int));
            assert(next.last() == members[i as int]@);
            assert(out@ =~= old(out)@ + members_text(next));
        }
        i += 1;
    }
    assert(members.deep_view().take(members.len() as int) =~= members.deep_view());
}

fn push_fields(out: &mut String, fields: &Vec<(String, Ty)>)
    ensures
        final(out)@ == old(out)@ + fields_text(fields.deep_view()),
{
    let mut i: usize = 0;
    assert(fields.deep_view().take(0) =~= Seq::empty());
    assert(out@ =~= old(out)@ + fields_text(fields.deep_view().take(0)));
    while i < fields.len()
        invariant
            i <= fields.len(),
            out@ == old(out)@ + fields_text(fields.deep_view().take(i as int)),
        decreases fields.len() - i,
    {
        let ghost before = out@;
        out.append("        ");
        if !starts_with_char(fields[i].0.as_str(), '_') {
            out.append("pub ");
        }
        out.append(fields[i].0.as_str());
        out.append(": ");
        fields[i].1.push_text(out);
        out.append(",\n");
        proof {
            let next = fields.deep_view().take(i + 1);
            assert(next.drop_last() =~= fields.deep_view().take(i as int));
            assert(next.last() == fields.deep_view()[i as int]);
            assert(out@ =~= before + field_line(next.last()));
            assert(out@ =~= old(out)@ + fields_text(next));
        }
        i += 1;
    }
    assert(fields.deep_view().take(fields.len() as int) =~= fields.deep_view());
}

fn push_variants(out: &mut String, variants: &Vec<(String, Expr)>)
    ensures
        final(out)@ == old(out)@ + variants_text(variants.deep_view()),
{
    let mut i: usize = 0;
    assert(variants.deep_view().take(0) =~= Seq::empty());
    assert(out@ =~= old(out)@ + variants_text(variants.deep_view().take(0)));
    while i < variants.len()
        invariant
            i <= variants.len(),
            out@ == old(out)@ + variants_text(variants.deep_view().take(i as int)),
        decreases variants.len() - i,
    {
        out.append("        ");
        out.append(variants[i].0.as_str());
        out.append(" = ");
        variants[i].1.push_text(out);
        out.append(",\n");
        proof {
            let next = variants.deep_view().take(i + 1);
            assert(next.drop_last() =~= variants.deep_view().take(i as int));
            assert(next.last() == variants.deep_view()[i as int]);
            assert(out@ =~= old(out)@ + variants_text(next));
        }
        i += 1;
    }
    assert(variants.deep_view().take(variants.len() as int) =~= variants.deep_view());
}

fn push_methods_block(out: &mut String, class_ty: &GenericType, members: &Vec<MethodOrProperty>)
    ensures
        final(out)@ == old(out)@ + methods_block(class_ty@, members.deep_view()),
{
    proof {
        class_ty.lemma_view();
        assert(class_ty.generics.deep_view() =~= class_ty@.generics);
    }
    out.append("    unsafe impl");
    push_generic_list(out, &class_ty.generics, ": Message, ", "Ownership: Ownership, ");
    out.append(" ");
    push_class_type(out, class_ty);
    out.append(" {\n");
    push_members(out, members);
    out.append("    }\n);\n");
    assert(out@ =~= old(out)@ + methods_block(class_ty@, members.deep_view()));
}

fn push_class_head(out: &mut String, ty: &GenericType, derives: &Derives)
    ensures
        final(out)@ == old(out)@ + class_head(ty@, derives@),
{
    proof {
        ty.lemma_view();
        assert(ty.generics.deep_view() =~= ty@.generics);
    }
    if ty.generics.len() == 0 {
        out.append("extern_class!(\n    ");
        derives.push_text(out);
        out.append("\n    pub struct ");
        out.append(ty.name.as_str());
        out.append(";\n");
        assert(out@ =~= old(out)@ + class_head(ty@, derives@));
    } else {
        out.append("__inner_extern_class!(\n    ");
        derives.push_text(out);
        out.append("\n    pub struct ");
        out.append(ty.name.as_str());
        push_generic_list(
            out,
            &ty.generics,
            ": Message = Object, ",
            "Ownership: Ownership = Shared, ",
        );
        out.append(" {\n");
        push_marker_fields(out, &ty.generics);
        out.append("notunwindsafe: PhantomData<&'static mut ()>,\n}\n");
        assert(out@ =~= old(out)@ + class_head(ty@, derives@));
    }
}

fn push_class_relation(out: &mut String, ty: &GenericType, superclass: &Option<GenericType>)
    ensures
        final(out)@ == old(out)@ + class_relation(ty@, superclass.deep_view()),
{
    proof {
        ty.lemma_view();
        assert(ty.generics.deep_view() =~= ty@.generics);
    }
    out.append("\n    unsafe impl");
    push_generic_list(out, &ty.generics, ": Message, ", "Ownership: Ownership, ");
    out.append(" ClassType for ");
    push_class_type(out, ty);
    out.append(" {\n        type Super = ");
    match superclass {
        Some(parent) => {
            push_class_type(out, parent);
        },
        None => {
            let root = GenericType::new(String::from_str("Object"));
            push_class_type(out, &root);
        },
    }
    out.append(";\n    }\n);\n\nextern_methods!(\n");
    assert(out@ =~= old(out)@ + class_relation(ty@, superclass.deep_view()));
}

fn push_fn_head(out: &mut String, name: &str, arguments: &Vec<(String, Ty)>, result_type: &Ty)
    ensures
        final(out)@ == old(out)@ + fn_head(name@, arguments.deep_view(), result_type@),
{
    out.append("    pub unsafe fn ");
    out.append(name);
    out.append("(");
    push_parameters(out, arguments);
    out.append(")");
    result_type.push_text(out);
    assert(out@ =~= old(out)@ + fn_head(name@, arguments.deep_view(), result_type@));
}

fn push_category(
    out: &mut String,
    class_ty: &GenericType,
    name: &Option<String>,
    methods: &Vec<MethodOrProperty>,
)
    ensures
        final(out)@ == old(out)@ + category_text(class_ty@, name.deep_view(), methods.deep_view()),
{
    out.append("extern_methods!(\n");
    match name {
        Some(name) => {
            out.append("    /// ");
            out.append(name.as_str());
            out.append("\n");
        },
        None => {},
    }
    push_methods_block(out, class_ty, methods);
    assert(out@ =~= old(out)@ + category_text(class_ty@, name.deep_view(), methods.deep_view()));
}

fn push_protocol(out: &mut String, name: &str, methods: &Vec<MethodOrProperty>)
    ensures
        final(out)@ == old(out)@ + protocol_text(name@, methods.deep_view()),
{
    out.append("extern_protocol!(\n    pub struct ");
    out.append(name);
    out.append(";\n\n    unsafe impl ProtocolType for ");
    out.append(name);
    out.append(" {\n");
    push_members(out, methods);
    out.append("    }\n);\n");
    assert(out@ =~= old(out)@ + protocol_text(name@, methods.deep_view()));
}

fn push_struct(out: &mut String, name: &str, fields: &Vec<(String, Ty)>)
    ensures
        final(out)@ == old(out)@ + struct_text(name@, fields.deep_view()),
{
    out.append("extern_struct!(\n    pub struct ");
    out.append(name);
    out.append(" {\n");
    push_fields(out, fields);
    out.append("    }\n);\n");
    assert(out@ =~= old(out)@ + struct_text(name@, fields.deep_view()));
}

fn push_enum(
    out: &mut String,
    name: &Option<String>,
    ty: &Ty,
    kind: Option<UnexposedMacro>,
    variants: &Vec<(String, Expr)>,
)
    ensures
        final(out)@ == old(out)@ + enum_text(name.deep_view(), ty@, kind, variants.deep_view()),
{
    match kind {
        None => out.append("extern_enum"),
        Some(UnexposedMacro::Enum) => out.append("ns_enum"),
        Some(UnexposedMacro::Options) => out.append("ns_options"),
        Some(UnexposedMacro::ClosedEnum) => out.append("ns_closed_enum"),
        Some(UnexposedMacro::ErrorEnum) => out.append("ns_error_enum"),
    }
    out.append("!(\n    #[underlying(");
    ty.push_text(out);
    out.append(")]\n    pub enum ");
    match name {
        Some(name) => {
            out.append(name.as_str());
            out.append(" ");
        },
        None => {},
    }
    out.append("{\n");
    push_variants(out, variants);
    out.append("    }\n);\n");
    assert(out@ =~= old(out)@ + enum_text(name.deep_view(), ty@, kind, variants.deep_view()));
}

fn push_var(out: &mut String, name: &str, ty: &Ty, value: &Option<Expr>)
    ensures
        final(out)@ == old(out)@ + var_text(name@, ty@, value.deep_view()),
{
    out.append("extern_static!(");
    out.append(name);
    out.append(": ");
    ty.push_text(out);
    match value {
        Some(expr) => {
            out.append(" = ");
            expr.push_text(out);
        },
        None => {},
    }
    out.append(");\n");
    assert(out@ =~= old(out)@ + var_text(name@, ty@, value.deep_view()));
}

fn push_fn(
    out: &mut String,
    name: &str,
    arguments: &Vec<(String, Ty)>,
    result_type: &Ty,
    body: bool,
)
    ensures
        final(out)@ == old(out)@ + fn_text(name@, arguments.deep_view(), result_type@, body),
{
    if body {
        out.append("inline_fn!(\n");
        push_fn_head(out, name, arguments, result_type);
        out.append(" {\n        todo");
        out.append("!()\n    }\n);\n");
        assert(out@ =~= old(out)@ + fn_text(name@, arguments.deep_view(), result_type@, body));
    } else {
        out.append("extern_fn!(\n");
        push_fn_head(out, name, arguments, result_type);
        out.append(";\n);\n");
        assert(out@ =~= old(out)@ + fn_text(name@, arguments.deep_view(), result_type@, body));
    }
}

fn push_alias(out: &mut String, name: &str, ty: &Ty)
    ensures
        final(out)@ == old(out)@ + alias_text(name@, ty@),
{
    out.append("pub type ");
    out.append(name);
    out.append(" = ");
    ty.push_text(out);
    out.append(";\n");
    assert(out@ =~= old(out)@ + alias_text(name@, ty@));
}

fn push_class(
    out: &mut String,
    ty: &GenericType,
    superclass: &Option<GenericType>,
    methods: &Vec<MethodOrProperty>,
    derives: &Derives,
)
    ensures
        final(out)@ == old(out)@ + class_text(
            ty@,
            superclass.deep_view(),
            methods.deep_view(),
            derives@,
        ),
{
    push_class_head(out, ty, derives);
    push_class_relation(out, ty, superclass);
    push_methods_block(out, ty, methods);
    assert(out@ =~= old(out)@ + class_text(
        ty@,
        superclass.deep_view(),
        methods.deep_view(),
        derives@,
    ));
}

impl Stmt {
    /// Appends the source text that declares the statement to `out`.
    pub fn push_text(&self, out: &mut String)
        ensures
            final(out)@ == old(out)@ + self@.text(),
    {
        match self {
            Stmt::ClassDecl { ty, availability, superclass, protocols, methods, derives } => {
                push_class(out, ty, superclass, methods, derives)
            },
            Stmt::CategoryDecl { class_ty, availability, name, protocols, methods } => {
                push_category(out, class_ty, name, methods)
            },
            Stmt::ProtocolDecl { name, availability, protocols, methods } => {
                push_protocol(out, name.as_str(), methods)
            },
            Stmt::StructDecl { name, boxable, fields } => push_struct(out, name.as_str(), fields),
            Stmt::EnumDecl { name, ty, kind, variants } => push_enum(
                out,
                name,
                ty,
                *kind,
                variants,
            ),
            Stmt::VarDecl { name, ty, value } => push_var(out, name.as_str(), ty, value),
            Stmt::FnDecl { name, arguments, result_type, body } => push_fn(
                out,
                name.as_str(),
                arguments,
                result_type,
                body.is_some(),
            ),
            Stmt::AliasDecl { name, ty } => push_alias(out, name.as_str(), ty),
        }
    }

    /// The source text that declares the statement.
    pub fn render(&self) -> (r: String)
        ensures
            r@ == self@.text(),
    {
        let mut out = String::new();
        self.push_text(&mut out);
        assert(out@ =~= self@.text());
        out
    }
}

} // verus!
