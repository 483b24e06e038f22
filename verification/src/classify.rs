//! The declaration classifier: from one entity and the override table to a
//! statement, to nothing where the declaration is skipped, or to the
//! inconsistency that makes the entity unusable.

use vstd::prelude::*;
use crate::config::{
    is_skipped,
    lookup,
    lookup_spec,
    skipped_spec,
    ClassData,
    ClassDataView,
    Config,
    ConfigView,
    EnumData,
    EnumDataView,
};
use crate::entity::{Entity, EntityKind, EntityView, TypeKind};
use crate::error::{result_view, StructuralError};
use crate::expr::{Expr, ExprView};
use crate::method::{attribute_kind, parameters, parse_attribute, parse_parameters};
use crate::resolve::{
    parse_objc_decl,
    plain_type,
    resolve,
    resolve_child,
    resolve_step,
    resolve_walk,
    walk,
    ObjCDecl,
    ResolverState,
};
use crate::rust_type::{GenericType, GenericTypeView, Ty, TyMode, TyView};
use crate::stmt::{Derives, Stmt, StmtView};
use crate::text::starts_with_char;
use crate::unexposed_macro::UnexposedMacro;

verus! {

/// Whether a name marks its declaration as private: it starts with an
/// underscore.
pub open spec fn is_private_name(name: Seq<char>) -> bool {
    name.len() > 0 && name[0] == '_'
}

/// Whether the override marks the class or protocol as skipped.
pub open spec fn class_skipped(data: Option<ClassDataView>) -> bool {
    match data {
        Some(data) => data.skipped,
        None => false,
    }
}

// ---------------------------------------------------------------- structs
/// What the walk over the children of a struct has found so far.
pub struct StructState {
    pub boxable: bool,
    pub fields: Seq<(Seq<char>, TyView)>,
}

/// What one child of a struct does to the state: a field is appended with
/// its type read as a field's, the boxable marker sets the flag.
pub open spec fn struct_child(state: StructState, child: EntityView) -> Result<
    StructState,
    StructuralError,
> {
    match child.kind {
        EntityKind::UnexposedAttr => if attribute_kind(child) is Some {
            Err(StructuralError::UnexpectedAttribute)
        } else {
            Ok(state)
        },
        EntityKind::FieldDecl => match child.name {
            None => Err(StructuralError::MissingName),
            Some(name) => match child.ty {
                None => Err(StructuralError::MissingType),
                Some(desc) => Ok(
                    StructState {
                        fields: state.fields.push((name, TyView::parse(desc, TyMode::StructField))),
                        ..state
                    },
                ),
            },
        },
        EntityKind::ObjCBoxable => Ok(StructState { boxable: true, ..state }),
        _ => Err(StructuralError::UnknownChild),
    }
}

/// The step of the walk over a struct's children.
pub open spec fn struct_step() -> spec_fn(StructState, EntityView) -> Result<
    StructState,
    StructuralError,
> {
    |state: StructState, child: EntityView| struct_child(state, child)
}

/// The struct called `name` that `entity` declares.
pub open spec fn classify_struct(entity: EntityView, name: Seq<char>) -> Result<
    StmtView,
    StructuralError,
> {
    match walk(
        entity.children,
        struct_step(),
        StructState { boxable: false, fields: Seq::empty() },
        0,
    ) {
        Err(e) => Err(e),
        Ok(state) => Ok(StmtView::StructDecl { name, boxable: state.boxable, fields: state.fields }),
    }
}

/// Reads the struct that `entity` declares, under the name `name`.
pub fn parse_struct(entity: &Entity, name: String) -> (r: Result<Stmt, StructuralError>)
    ensures
        result_view(r) == classify_struct(entity@, name@),
{
    let mut boxable = false;
    let mut fields: Vec<(String, Ty)> = Vec::new();
    let ghost children = entity@.children;
    let ghost total = classify_struct(entity@, name@);
    let mut i: usize = 0;
    assert(fields.deep_view() =~= Seq::empty());
    while i < entity.children.len()
        invariant
            i <= entity.children.len(),
            children == entity@.children,
            total == classify_struct(entity@, name@),
            walk(children, struct_step(), StructState { boxable: false, fields: Seq::empty() }, 0)
                == walk(
                children,
                struct_step(),
                StructState { boxable, fields: fields.deep_view() },
                i as int,
            ),
        decreases entity.children.len() - i,
    {
        let child = &entity.children[i];
        let ghost state = StructState { boxable, fields: fields.deep_view() };
        proof {
            assert(children[i as int] == child@);
            assert(struct_step()(state, child@) == struct_child(state, child@));
        }
        match child.kind {
            EntityKind::UnexposedAttr => {
                if parse_attribute(child).is_some() {
                    return Err(StructuralError::UnexpectedAttribute);
                }
            },
            EntityKind::FieldDecl => {
                let field_name = match &child.name {
                    None => {
                        return Err(StructuralError::MissingName);
                    },
                    Some(field_name) => field_name.clone(),
                };
                match &child.ty {
                    None => {
                        return Err(StructuralError::MissingType);
                    },
                    Some(desc) => {
                        fields.push((field_name, Ty::parse_struct_field(desc)));
                        assert(fields.deep_view() =~= state.fields.push(
                            (field_name@, TyView::parse(desc@, TyMode::StructField)),
                        ));
                    },
                }
            },
            EntityKind::ObjCBoxable => {
                boxable = true;
            },
            _ => {
                return Err(StructuralError::UnknownChild);
            },
        }
        i += 1;
    }
    Ok(Stmt::StructDecl { name, boxable, fields })
}

// ------------------------------------------------------------------ enums
/// What the walk over the children of an enumeration has found so far.
pub struct EnumState {
    pub kind: Option<UnexposedMacro>,
    pub variants: Seq<(Seq<char>, ExprView)>,
}

/// The state after an attribute has given the kind `kind`: a first kind is
/// taken, a second one has to agree with it.
pub open spec fn with_kind(state: EnumState, kind: UnexposedMacro) -> Result<
    EnumState,
    StructuralError,
> {
    match state.kind {
        Some(known) => if known == kind {
            Ok(state)
        } else {
            Err(StructuralError::DifferingEnumKinds)
        },
        None => Ok(EnumState { kind: Some(kind), ..state }),
    }
}

/// Whether the override skips the constant called `name`.
pub open spec fn constant_skipped(data: Option<EnumDataView>, name: Seq<char>) -> bool {
    match data {
        Some(data) => skipped_spec(data.constants, name),
        None => false,
    }
}

/// Whether the override asks for raw values.
pub open spec fn uses_value(data: Option<EnumDataView>) -> bool {
    match data {
        Some(data) => data.use_value,
        None => false,
    }
}

/// The value of a constant: the raw value where the override asks for it or
/// the constant has no expression that can be represented, the expression
/// as written otherwise.
pub open spec fn constant_expr(
    child: EntityView,
    value: (i64, u64),
    data: Option<EnumDataView>,
    is_signed: bool,
) -> ExprView {
    if uses_value(data) {
        ExprView::from_val(value, is_signed)
    } else {
        match child.expression {
            Some(text) => ExprView::Symbolic(text),
            None => ExprView::from_val(value, is_signed),
        }
    }
}

/// What one child of an enumeration does to the state.
pub open spec fn enum_child(
    state: EnumState,
    child: EntityView,
    data: Option<EnumDataView>,
    is_signed: bool,
) -> Result<EnumState, StructuralError> {
    match child.kind {
        EntityKind::EnumConstantDecl => match child.name {
            None => Err(StructuralError::MissingName),
            Some(name) => if constant_skipped(data, name) {
                Ok(state)
            } else {
                match child.constant_value {
                    None => Err(StructuralError::MissingValue),
                    Some(value) => Ok(
                        EnumState {
                            variants: state.variants.push(
                                (name, constant_expr(child, value, data, is_signed)),
                            ),
                            ..state
                        },
                    ),
                }
            },
        },
        EntityKind::UnexposedAttr => match attribute_kind(child) {
            Some(kind) => with_kind(state, kind),
            None => Ok(state),
        },
        EntityKind::FlagEnum => with_kind(state, UnexposedMacro::Options),
        _ => Err(StructuralError::UnknownChild),
    }
}

/// The step of the walk over an enumeration's children.
pub open spec fn enum_step(data: Option<EnumDataView>, is_signed: bool) -> spec_fn(
    EnumState,
    EntityView,
) -> Result<EnumState, StructuralError> {
    |state: EnumState, child: EntityView| enum_child(state, child, data, is_signed)
}

/// What is configured for the enumeration called `name`; an enumeration
/// without a name is looked up as `anonymous`.
pub open spec fn enum_data(config: ConfigView, name: Option<Seq<char>>) -> Option<EnumDataView> {
    lookup_spec(
        config.enum_data,
        match name {
            Some(name) => name,
            None => "anonymous"@,
        },
    )
}

/// The statement of an enumeration. Only the occurrence that defines the
/// enumeration makes one.
pub open spec fn classify_enum(entity: EntityView, config: ConfigView) -> Result<
    Option<StmtView>,
    StructuralError,
> {
    let data = enum_data(config, entity.name);
    if !entity.is_definition {
        Ok(None)
    } else if data is Some && data->Some_0.skipped {
        Ok(None)
    } else {
        match entity.ty {
            None => Err(StructuralError::MissingType),
            Some(desc) => match walk(
                entity.children,
                enum_step(data, desc.kind == TypeKind::SignedInteger),
                EnumState { kind: None, variants: Seq::empty() },
                0,
            ) {
                Err(e) => Err(e),
                Ok(state) => Ok(
                    Some(
                        StmtView::EnumDecl {
                            name: entity.name,
                            ty: TyView::parse(desc, TyMode::Enum),
                            kind: state.kind,
                            variants: state.variants,
                        },
                    ),
                ),
            },
        }
    }
}

fn parse_enum(entity: &Entity, config: &Config) -> (r: Result<Option<Stmt>, StructuralError>)
    ensures
        result_view(r) == classify_enum(entity@, config@),
{
    if !entity.is_definition {
        return Ok(None);
    }
    let data: Option<&EnumData> = match &entity.name {
        Some(name) => lookup(&config.enum_data, name.as_str()),
        None => lookup(&config.enum_data, "anonymous"),
    };
    assert(data.deep_view() == enum_data(config@, entity@.name));
    let use_value = match data {
        Some(data) => {
            if data.skipped {
                return Ok(None);
            }
            data.use_value
        },
        None => false,
    };
    let desc = match &entity.ty {
        None => {
            return Err(StructuralError::MissingType);
        },
        Some(desc) => desc,
    };
    let is_signed = desc.kind == TypeKind::SignedInteger;
    let mut kind: Option<UnexposedMacro> = None;
    let mut variants: Vec<(String, Expr)> = Vec::new();
    let ghost children = entity@.children;
    let ghost step = enum_step(data.deep_view(), is_signed);
    let ghost total = walk(
        children,
        step,
        EnumState { kind: None, variants: Seq::empty() },
        0,
    );
    let mut i: usize = 0;
    assert(variants.deep_view() =~= Seq::empty());
    while i < entity.children.len()
        invariant
            i <= entity.children.len(),
            children == entity@.children,
            step == enum_step(data.deep_view(), is_signed),
            use_value == uses_value(data.deep_view()),
            classify_enum(entity@, config@) == (match total {
                Err(e) => Err::<Option<StmtView>, StructuralError>(e),
                Ok(state) => Ok(
                    Some(
                        StmtView::EnumDecl {
                            name: entity@.name,
                            ty: TyView::parse(desc@, TyMode::Enum),
                            kind: state.kind,
                            variants: state.variants,
                        },
                    ),
                ),
            }),
            total == walk(
                children,
                step,
                EnumState { kind, variants: variants.deep_view() },
                i as int,
            ),
        decreases entity.children.len() - i,
    {
        let child = &entity.children[i];
        let ghost state = EnumState { kind, variants: variants.deep_view() };
        proof {
            assert(children[i as int] == child@);
            assert(step(state, child@) == enum_child(state, child@, data.deep_view(), is_signed));
        }
        let mut found: Option<UnexposedMacro> = None;
        match child.kind {
            EntityKind::EnumConstantDecl => {
                let name = match &child.name {
                    None => {
                        return Err(StructuralError::MissingName);
                    },
                    Some(name) => name,
                };
                let skip = match data {
                    Some(data) => is_skipped(&data.constants, name.as_str()),
                    None => false,
                };
                if !skip {
                    let value = match child.constant_value {
                        None => {
                            return Err(StructuralError::MissingValue);
                        },
                        Some(value) => value,
                    };
                    let expr = if use_value {
                        Expr::from_val(value, is_signed)
                    } else {
                        match &child.expression {
                            Some(text) => Expr::symbolic(text.as_str()),
                            None => Expr::from_val(value, is_signed),
                        }
                    };
                    variants.push((name.clone(), expr));
                    assert(variants.deep_view() =~= state.variants.push(
                        (name@, constant_expr(child@, value, data.deep_view(), is_signed)),
                    ));
                }
            },
            EntityKind::UnexposedAttr => {
                found = parse_attribute(child);
            },
            EntityKind::FlagEnum => {
                found = Some(UnexposedMacro::Options);
            },
            _ => {
                return Err(StructuralError::UnknownChild);
            },
        }
        match found {
            Some(new_kind) => {
                match kind {
                    Some(known) => {
                        if known != new_kind {
                            return Err(StructuralError::DifferingEnumKinds);
                        }
                    },
                    None => {
                        kind = Some(new_kind);
                    },
                }
            },
            None => {},
        }
        i += 1;
    }
    Ok(Some(Stmt::EnumDecl { name: entity.name.clone(), ty: Ty::parse_enum(desc), kind, variants }))
}

// ------------------------------------------------------------- variables
/// What one child of a variable does to its value: `None` while no
/// initializer was seen, `Some(None)` for one that cannot be represented.
pub open spec fn var_child(state: Option<Option<ExprView>>, child: EntityView) -> Result<
    Option<Option<ExprView>>,
    StructuralError,
> {
    match child.kind {
        EntityKind::UnexposedAttr => if attribute_kind(child) is Some {
            Err(StructuralError::UnexpectedAttribute)
        } else {
            Ok(state)
        },
        EntityKind::VisibilityAttr | EntityKind::ObjCClassRef | EntityKind::TypeRef => Ok(state),
        EntityKind::Expression => if state is Some {
            Err(StructuralError::DuplicateValue)
        } else {
            Ok(
                Some(
                    match child.expression {
                        Some(text) => Some(ExprView::Symbolic(text)),
                        None => None,
                    },
                ),
            )
        },
        _ => Err(StructuralError::UnknownChild),
    }
}

/// The step of the walk over a variable's children.
pub open spec fn var_step() -> spec_fn(Option<Option<ExprView>>, EntityView) -> Result<
    Option<Option<ExprView>>,
    StructuralError,
> {
    |state: Option<Option<ExprView>>, child: EntityView| var_child(state, child)
}

/// The statement of a global variable. A variable whose initializer cannot
/// be represented makes none.
pub open spec fn classify_var(entity: EntityView, config: ConfigView) -> Result<
    Option<StmtView>,
    StructuralError,
> {
    match entity.name {
        None => Err(StructuralError::MissingName),
        Some(name) => if skipped_spec(config.statics, name) {
            Ok(None)
        } else {
            match entity.ty {
                None => Err(StructuralError::MissingType),
                Some(desc) => match walk(entity.children, var_step(), None, 0) {
                    Err(e) => Err(e),
                    Ok(Some(None)) => Ok(None),
                    Ok(Some(Some(expr))) => Ok(
                        Some(
                            StmtView::VarDecl {
                                name,
                                ty: TyView::parse(desc, TyMode::Static),
                                value: Some(expr),
                            },
                        ),
                    ),
                    Ok(None) => Ok(
                        Some(
                            StmtView::VarDecl {
                                name,
                                ty: TyView::parse(desc, TyMode::Static),
                                value: None,
                            },
                        ),
                    ),
                },
            }
        },
    }
}

fn parse_var(entity: &Entity, config: &Config) -> (r: Result<Option<Stmt>, StructuralError>)
    ensures
        result_view(r) == classify_var(entity@, config@),
{
    let name = match &entity.name {
        None => {
            return Err(StructuralError::MissingName);
        },
        Some(name) => name,
    };
    if is_skipped(&config.statics, name.as_str()) {
        return Ok(None);
    }
    let desc = match &entity.ty {
        None => {
            return Err(StructuralError::MissingType);
        },
        Some(desc) => desc,
    };
    let mut value: Option<Option<Expr>> = None;
    let ghost children = entity@.children;
    let ghost total = walk(children, var_step(), None, 0);
    let mut i: usize = 0;
    while i < entity.children.len()
        invariant
            i <= entity.children.len(),
            children == entity@.children,
            total == walk(children, var_step(), None, 0),
            total == walk(children, var_step(), value.deep_view(), i as int),
            entity@.name == Some(name@),
            !skipped_spec(config@.statics, name@),
            entity@.ty == Some(desc@),
        decreases entity.children.len() - i,
    {
        let child = &entity.children[i];
        proof {
            assert(children[i as int] == child@);
            assert(var_step()(value.deep_view(), child@) == var_child(value.deep_view(), child@));
        }
        match child.kind {
            EntityKind::UnexposedAttr => {
                if parse_attribute(child).is_some() {
                    return Err(StructuralError::UnexpectedAttribute);
                }
            },
            EntityKind::VisibilityAttr | EntityKind::ObjCClassRef | EntityKind::TypeRef => {},
            EntityKind::Expression => {
                if value.is_some() {
                    return Err(StructuralError::DuplicateValue);
                }
                value = Some(
                    match &child.expression {
                        Some(text) => Some(Expr::symbolic(text.as_str())),
                        None => None,
                    },
                );
            },
            _ => {
                return Err(StructuralError::UnknownChild);
            },
        }
        i += 1;
    }
    match value {
        Some(None) => Ok(None),
        Some(Some(expr)) => Ok(
            Some(Stmt::VarDecl { name: name.clone(), ty: Ty::parse_static(desc), value: Some(expr) }),
        ),
        None => Ok(
            Some(Stmt::VarDecl { name: name.clone(), ty: Ty::parse_static(desc), value: None }),
        ),
    }
}

// ------------------------------------------------------------- functions
/// The statement of a global function. A skipped or variadic function makes
/// none.
pub open spec fn classify_fn(entity: EntityView, config: ConfigView) -> Result<
    Option<StmtView>,
    StructuralError,
> {
    match entity.name {
        None => Err(StructuralError::MissingName),
        Some(name) => if skipped_spec(config.fns, name) || entity.is_variadic {
            Ok(None)
        } else {
            match entity.result_type {
                None => Err(StructuralError::MissingType),
                Some(result) => if entity.is_static_method {
                    Err(StructuralError::StaticMethod)
                } else {
                    match parameters(entity.children, TyMode::FnArgument) {
                        Err(e) => Err(e),
                        Ok(arguments) => Ok(
                            Some(
                                StmtView::FnDecl {
                                    name,
                                    arguments,
                                    result_type: TyView::parse(result, TyMode::FnReturn),
                                    body: entity.is_inline,
                                },
                            ),
                        ),
                    }
                },
            }
        },
    }
}

fn parse_fn(entity: &Entity, config: &Config) -> (r: Result<Option<Stmt>, StructuralError>)
    ensures
        result_view(r) == classify_fn(entity@, config@),
{
    let name = match &entity.name {
        None => {
            return Err(StructuralError::MissingName);
        },
        Some(name) => name,
    };
    if is_skipped(&config.fns, name.as_str()) || entity.is_variadic {
        return Ok(None);
    }
    let result_type = match &entity.result_type {
        None => {
            return Err(StructuralError::MissingType);
        },
        Some(desc) => Ty::parse_function_return(desc),
    };
    if entity.is_static_method {
        return Err(StructuralError::StaticMethod);
    }
    let arguments = match parse_parameters(entity, TyMode::FnArgument) {
        Err(e) => {
            return Err(e);
        },
        Ok(arguments) => arguments,
    };
    let body = if entity.is_inline {
        Some(())
    } else {
        None
    };
    Ok(Some(Stmt::FnDecl { name: name.clone(), arguments, result_type, body }))
}

// --------------------------------------------------------------- typedefs
/// What the walk over the children of a typedef has found so far: the
/// struct that the typedef names, if it defines one, and whether it names a
/// struct that makes a statement of its own.
pub struct TypedefState {
    pub found: Option<StmtView>,
    pub skip_struct: bool,
}

/// What one child of the typedef called `name` does to the state. A struct
/// without a name, or with a private one, is read under the typedef's name.
pub open spec fn typedef_child(
    state: TypedefState,
    child: EntityView,
    name: Seq<char>,
    config: ConfigView,
) -> Result<TypedefState, StructuralError> {
    match child.kind {
        EntityKind::UnexposedAttr => if attribute_kind(child) is Some {
            Err(StructuralError::UnexpectedAttribute)
        } else {
            Ok(state)
        },
        EntityKind::StructDecl => if skipped_spec(config.struct_data, name) {
            Ok(TypedefState { skip_struct: true, ..state })
        } else if child.name is None || is_private_name(child.name->Some_0) {
            match classify_struct(child, name) {
                Err(e) => Err(e),
                Ok(stmt) => Ok(TypedefState { found: Some(stmt), ..state }),
            }
        } else {
            Ok(TypedefState { skip_struct: true, ..state })
        },
        EntityKind::ObjCClassRef
        | EntityKind::ObjCProtocolRef
        | EntityKind::TypeRef
        | EntityKind::ParmDecl => Ok(state),
        _ => Err(StructuralError::UnknownChild),
    }
}

/// The step of the walk over a typedef's children.
pub open spec fn typedef_step(name: Seq<char>, config: ConfigView) -> spec_fn(
    TypedefState,
    EntityView,
) -> Result<TypedefState, StructuralError> {
    |state: TypedefState, child: EntityView| typedef_child(state, child, name, config)
}

/// The statement of a typedef: the struct it defines, or an alias for its
/// underlying type, or nothing where it names a struct that stands for
/// itself, is skipped, or has an underlying type without a form.
pub open spec fn classify_typedef(entity: EntityView, config: ConfigView) -> Result<
    Option<StmtView>,
    StructuralError,
> {
    match entity.name {
        None => Err(StructuralError::MissingName),
        Some(name) => match walk(
            entity.children,
            typedef_step(name, config),
            TypedefState { found: None, skip_struct: false },
            0,
        ) {
            Err(e) => Err(e),
            Ok(state) => if state.found is Some {
                Ok(state.found)
            } else if state.skip_struct || skipped_spec(config.typedef_data, name) {
                Ok(None)
            } else {
                match entity.ty {
                    None => Err(StructuralError::MissingType),
                    Some(desc) => match TyView::parse_typedef(desc) {
                        Some(ty) => Ok(Some(StmtView::AliasDecl { name, ty })),
                        None => Ok(None),
                    },
                }
            },
        },
    }
}

fn parse_typedef(entity: &Entity, config: &Config) -> (r: Result<Option<Stmt>, StructuralError>)
    ensures
        result_view(r) == classify_typedef(entity@, config@),
{
    let name = match &entity.name {
        None => {
            return Err(StructuralError::MissingName);
        },
        Some(name) => name,
    };
    let mut found: Option<Stmt> = None;
    let mut skip_struct = false;
    let ghost children = entity@.children;
    let ghost step = typedef_step(name@, config@);
    let ghost total = walk(children, step, TypedefState { found: None, skip_struct: false }, 0);
    let mut i: usize = 0;
    while i < entity.children.len()
        invariant
            i <= entity.children.len(),
            children == entity@.children,
            step == typedef_step(name@, config@),
            total == walk(children, step, TypedefState { found: None, skip_struct: false }, 0),
            entity@.name == Some(name@),
            total == walk(
                children,
                step,
                TypedefState { found: found.deep_view(), skip_struct },
                i as int,
            ),
        decreases entity.children.len() - i,
    {
        let child = &entity.children[i];
        let ghost state = TypedefState { found: found.deep_view(), skip_struct };
        proof {
            assert(children[i as int] == child@);
            assert(step(state, child@) == typedef_child(state, child@, name@, config@));
        }
        match child.kind {
            EntityKind::UnexposedAttr => {
                if parse_attribute(child).is_some() {
                    return Err(StructuralError::UnexpectedAttribute);
                }
            },
            EntityKind::StructDecl => {
                if is_skipped(&config.struct_data, name.as_str()) {
                    skip_struct = true;
                } else {
                    let private = match &child.name {
                        None => true,
                        Some(struct_name) => starts_with_char(struct_name.as_str(), '_'),
                    };
                    if private {
                        match parse_struct(child, name.clone()) {
                            Err(e) => {
                                return Err(e);
                            },
                            Ok(stmt) => {
                                found = Some(stmt);
                            },
                        }
                    } else {
                        skip_struct = true;
                    }
                }
            },
            EntityKind::ObjCClassRef
            | EntityKind::ObjCProtocolRef
            | EntityKind::TypeRef
            | EntityKind::ParmDecl => {},
            _ => {
                return Err(StructuralError::UnknownChild);
            },
        }
        i += 1;
    }
    if found.is_some() {
        return Ok(found);
    }
    if skip_struct || is_skipped(&config.typedef_data, name.as_str()) {
        return Ok(None);
    }
    match &entity.ty {
        None => Err(StructuralError::MissingType),
        Some(desc) => match Ty::parse_typedef(desc) {
            Some(ty) => Ok(Some(Stmt::AliasDecl { name: name.clone(), ty })),
            None => Ok(None),
        },
    }
}

/// The statement of a struct that is declared on its own: one with a name
/// that is neither skipped nor private.
pub open spec fn classify_struct_decl(entity: EntityView, config: ConfigView) -> Result<
    Option<StmtView>,
    StructuralError,
> {
    match entity.name {
        None => Ok(None),
        Some(name) => if skipped_spec(config.struct_data, name) || is_private_name(name) {
            Ok(None)
        } else {
            match classify_struct(entity, name) {
                Err(e) => Err(e),
                Ok(stmt) => Ok(Some(stmt)),
            }
        },
    }
}

fn parse_struct_decl(entity: &Entity, config: &Config) -> (r: Result<
    Option<Stmt>,
    StructuralError,
>)
    ensures
        result_view(r) == classify_struct_decl(entity@, config@),
{
    match &entity.name {
        None => Ok(None),
        Some(name) => {
            if is_skipped(&config.struct_data, name.as_str()) || starts_with_char(
                name.as_str(),
                '_',
            ) {
                Ok(None)
            } else {
                match parse_struct(entity, name.clone()) {
                    Err(e) => Err(e),
                    Ok(stmt) => Ok(Some(stmt)),
                }
            }
        },
    }
}

// ---------------------------------------------------------------- classes
/// The derive set of a class: the configured one, or the default.
pub open spec fn class_derives(data: Option<ClassDataView>) -> Seq<char> {
    match data {
        Some(data) => data.derives,
        None => Derives::default_text(),
    }
}

/// The superclass slot after the override had its say: a configured name
/// takes the place of the parent's name, and makes a parent where none was
/// found.
pub open spec fn renamed_superclass(
    found: Option<Option<GenericTypeView>>,
    data: Option<ClassDataView>,
) -> Option<Option<GenericTypeView>> {
    match data {
        Some(ClassDataView { new_superclass_name: Some(new_name), .. }) => Some(
            Some(
                match found {
                    Some(Some(parent)) => GenericTypeView {
                        name: new_name,
                        generics: parent.generics,
                    },
                    _ => plain_type(new_name),
                },
            ),
        ),
        _ => found,
    }
}

/// The statement of a class. A class whose superclass slot is still unset
/// after the walk and the override makes none: that is an inconsistency.
pub open spec fn classify_class(entity: EntityView, config: ConfigView) -> Result<
    Option<StmtView>,
    StructuralError,
> {
    match entity.name {
        None => Err(StructuralError::MissingName),
        Some(name) => {
            let data = lookup_spec(config.class_data, name);
            if class_skipped(data) {
                Ok(None)
            } else {
                match entity.availability {
                    None => Err(StructuralError::MissingAvailability),
                    Some(availability) => match resolve(entity.children, true, true, data) {
                        Err(e) => Err(e),
                        Ok(decl) => match renamed_superclass(decl.superclass, data) {
                            None => Err(StructuralError::MissingSuperclass),
                            Some(superclass) => Ok(
                                Some(
                                    StmtView::ClassDecl {
                                        ty: GenericTypeView { name, generics: decl.generics },
                                        availability,
                                        superclass,
                                        protocols: decl.protocols,
                                        methods: decl.methods,
                                        derives: class_derives(data),
                                    },
                                ),
                            ),
                        },
                    },
                }
            }
        },
    }
}

fn parse_class(entity: &Entity, config: &Config) -> (r: Result<Option<Stmt>, StructuralError>)
    ensures
        result_view(r) == classify_class(entity@, config@),
{
    let name = match &entity.name {
        None => {
            return Err(StructuralError::MissingName);
        },
        Some(name) => name,
    };
    let data: Option<&ClassData> = lookup(&config.class_data, name.as_str());
    match data {
        Some(data) => {
            if data.skipped {
                return Ok(None);
            }
        },
        None => {},
    }
    let availability = match entity.availability {
        None => {
            return Err(StructuralError::MissingAvailability);
        },
        Some(availability) => availability,
    };
    let decl = match parse_objc_decl(entity, true, true, data) {
        Err(e) => {
            return Err(e);
        },
        Ok(decl) => decl,
    };
    let ghost found = decl@;
    let ObjCDecl { superclass: found_superclass, generics, protocols, methods } = decl;
    let new_name: Option<&String> = match data {
        Some(data) => match &data.new_superclass_name {
            Some(new_name) => Some(new_name),
            None => None,
        },
        None => None,
    };
    let superclass = match new_name {
        Some(new_name) => match found_superclass {
            Some(Some(parent)) => {
                let GenericType { name: _, generics: arguments } = parent;
                let renamed = GenericType { name: new_name.clone(), generics: arguments };
                assert(renamed@.generics =~= parent@.generics);
                Some(Some(renamed))
            },
            _ => Some(Some(GenericType::new(new_name.clone()))),
        },
        None => found_superclass,
    };
    assert(superclass.deep_view() == renamed_superclass(found.superclass, data.deep_view()));
    let superclass = match superclass {
        None => {
            return Err(StructuralError::MissingSuperclass);
        },
        Some(superclass) => superclass,
    };
    let derives = match data {
        Some(data) => Derives(data.derives.0.clone()),
        None => Derives::default(),
    };
    let ty = GenericType { name: name.clone(), generics };
    assert(ty@.generics =~= found.generics);
    Ok(Some(Stmt::ClassDecl { ty, availability, superclass, protocols, methods, derives }))
}

// ------------------------------------------------------------- categories
/// Whether the child at `i` names a class.
pub open spec fn is_class_ref_at(children: Seq<EntityView>, i: int) -> bool {
    0 <= i < children.len() && children[i].kind == EntityKind::ObjCClassRef
}

/// Whether the child at `i` is the only one that names a class.
pub open spec fn is_only_class_ref(children: Seq<EntityView>, i: int) -> bool {
    is_class_ref_at(children, i) && forall|j: int| is_class_ref_at(children, j) ==> j == i
}

/// The child that names the class of a category, where exactly one child
/// names a class.
pub open spec fn category_class(children: Seq<EntityView>) -> Option<EntityView> {
    if exists|i: int| is_only_class_ref(children, i) {
        Some(children[choose|i: int| is_only_class_ref(children, i)])
    } else {
        None
    }
}

/// The statement of a category. A category has to name exactly one class.
pub open spec fn classify_category(entity: EntityView, config: ConfigView) -> Result<
    Option<StmtView>,
    StructuralError,
> {
    match entity.availability {
        None => Err(StructuralError::MissingAvailability),
        Some(availability) => match category_class(entity.children) {
            None => Err(StructuralError::CategoryClass),
            Some(class) => match class.name {
                None => Err(StructuralError::MissingName),
                Some(class_name) => {
                    let data = lookup_spec(config.class_data, class_name);
                    if class_skipped(data) {
                        Ok(None)
                    } else {
                        match resolve(entity.children, false, true, data) {
                            Err(e) => Err(e),
                            Ok(decl) => Ok(
                                Some(
                                    StmtView::CategoryDecl {
                                        class_ty: GenericTypeView {
                                            name: class_name,
                                            generics: decl.generics,
                                        },
                                        availability,
                                        name: entity.name,
                                        protocols: decl.protocols,
                                        methods: decl.methods,
                                    },
                                ),
                            ),
                        }
                    }
                },
            },
        },
    }
}

fn find_category_class(entity: &Entity) -> (r: Option<usize>)
    ensures
        match r {
            Some(i) => i < entity.children.len() && category_class(entity@.children) == Some(
                entity.children[i as int]@,
            ),
            None => category_class(entity@.children) is None,
        },
{
    let ghost children = entity@.children;
    let mut first: Option<usize> = None;
    let mut i: usize = 0;
    while i < entity.children.len()
        invariant
            i <= entity.children.len(),
            children == entity@.children,
            match first {
                Some(at) => at < i && is_class_ref_at(children, at as int) && forall|j: int|
                    0 <= j < i && is_class_ref_at(children, j) ==> j == at,
                None => forall|j: int| 0 <= j < i ==> !is_class_ref_at(children, j),
            },
        decreases entity.children.len() - i,
    {
        assert(children[i as int] == entity.children[i as int]@);
        if entity.children[i].kind == EntityKind::ObjCClassRef {
            match first {
                Some(at) => {
                    proof {
                        assert(is_class_ref_at(children, at as int));
                        assert(is_class_ref_at(children, i as int));
                        assert forall|k: int| !is_only_class_ref(children, k) by {
                            if is_only_class_ref(children, k) {
                                assert(at as int == k);
                                assert(i as int == k);
                            }
                        }
                    }
                    return None;
                },
                None => {
                    first = Some(i);
                },
            }
        }
        i += 1;
    }
    match first {
        Some(at) => {
            proof {
                assert(is_only_class_ref(children, at as int));
                let chosen = choose|k: int| is_only_class_ref(children, k);
                assert(chosen == at as int);
                assert(children[at as int] == entity.children[at as int]@);
            }
            Some(at)
        },
        None => {
            proof {
                assert forall|k: int| !is_only_class_ref(children, k) by {
                    if is_only_class_ref(children, k) {
                        assert(is_class_ref_at(children, k));
                    }
                }
            }
            None
        },
    }
}

fn parse_category(entity: &Entity, config: &Config) -> (r: Result<Option<Stmt>, StructuralError>)
    ensures
        result_view(r) == classify_category(entity@, config@),
{
    let availability = match entity.availability {
        None => {
            return Err(StructuralError::MissingAvailability);
        },
        Some(availability) => availability,
    };
    let class = match find_category_class(entity) {
        None => {
            return Err(StructuralError::CategoryClass);
        },
        Some(at) => &entity.children[at],
    };
    let class_name = match &class.name {
        None => {
            return Err(StructuralError::MissingName);
        },
        Some(class_name) => class_name,
    };
    let data: Option<&ClassData> = lookup(&config.class_data, class_name.as_str());
    match data {
        Some(data) => {
            if data.skipped {
                return Ok(None);
            }
        },
        None => {},
    }
    let decl = match parse_objc_decl(entity, false, true, data) {
        Err(e) => {
            return Err(e);
        },
        Ok(decl) => decl,
    };
    let ghost found = decl@;
    let ObjCDecl { superclass: _, generics, protocols, methods } = decl;
    let class_ty = GenericType { name: class_name.clone(), generics };
    assert(class_ty@.generics =~= found.generics);
    Ok(
        Some(
            Stmt::CategoryDecl {
                class_ty,
                availability,
                name: entity.name.clone(),
                protocols,
                methods,
            },
        ),
    )
}

// -------------------------------------------------------------- protocols
/// The statement of a protocol.
pub open spec fn classify_protocol(entity: EntityView, config: ConfigView) -> Result<
    Option<StmtView>,
    StructuralError,
> {
    match entity.name {
        None => Err(StructuralError::MissingName),
        Some(name) => {
            let data = lookup_spec(config.protocol_data, name);
            if class_skipped(data) {
                Ok(None)
            } else {
                match entity.availability {
                    None => Err(StructuralError::MissingAvailability),
                    Some(availability) => match resolve(entity.children, false, false, data) {
                        Err(e) => Err(e),
                        Ok(decl) => Ok(
                            Some(
                                StmtView::ProtocolDecl {
                                    name,
                                    availability,
                                    protocols: decl.protocols,
                                    methods: decl.methods,
                                },
                            ),
                        ),
                    },
                }
            }
        },
    }
}

fn parse_protocol(entity: &Entity, config: &Config) -> (r: Result<Option<Stmt>, StructuralError>)
    ensures
        result_view(r) == classify_protocol(entity@, config@),
{
    let name = match &entity.name {
        None => {
            return Err(StructuralError::MissingName);
        },
        Some(name) => name,
    };
    let data: Option<&ClassData> = lookup(&config.protocol_data, name.as_str());
    match data {
        Some(data) => {
            if data.skipped {
                return Ok(None);
            }
        },
        None => {},
    }
    let availability = match entity.availability {
        None => {
            return Err(StructuralError::MissingAvailability);
        },
        Some(availability) => availability,
    };
    let decl = match parse_objc_decl(entity, false, false, data) {
        Err(e) => {
            return Err(e);
        },
        Ok(decl) => decl,
    };
    let ObjCDecl { superclass: _, generics: _, protocols, methods } = decl;
    Ok(Some(Stmt::ProtocolDecl { name: name.clone(), availability, protocols, methods }))
}

// ---------------------------------------------------------------- dispatch
/// What an entity is classified as: a statement, nothing where the
/// declaration is skipped or makes no statement, or the inconsistency that
/// was found. An entity of any kind but the ones listed is an
/// inconsistency.
pub open spec fn classify(entity: EntityView, config: ConfigView) -> Result<
    Option<StmtView>,
    StructuralError,
> {
    match entity.kind {
        EntityKind::ObjCClassRef | EntityKind::ObjCProtocolRef | EntityKind::UnionDecl => Ok(None),
        EntityKind::ObjCInterfaceDecl => classify_class(entity, config),
        EntityKind::ObjCCategoryDecl => classify_category(entity, config),
        EntityKind::ObjCProtocolDecl => classify_protocol(entity, config),
        EntityKind::TypedefDecl => classify_typedef(entity, config),
        EntityKind::StructDecl => classify_struct_decl(entity, config),
        EntityKind::EnumDecl => classify_enum(entity, config),
        EntityKind::VarDecl => classify_var(entity, config),
        EntityKind::FunctionDecl => classify_fn(entity, config),
        _ => Err(StructuralError::UnknownEntity),
    }
}

impl Stmt {
    /// Classifies one entity under the override table: `Ok(Some(..))` with
    /// the statement, `Ok(None)` where the declaration is skipped or makes
    /// no statement, `Err(..)` with the inconsistency that makes the entity
    /// unusable.
    pub fn parse(entity: &Entity, config: &Config) -> (r: Result<Option<Stmt>, StructuralError>)
        ensures
            result_view(r) == classify(entity@, config@),
    {
        match entity.kind {
            EntityKind::ObjCClassRef | EntityKind::ObjCProtocolRef | EntityKind::UnionDecl => Ok(
                None,
            ),
            EntityKind::ObjCInterfaceDecl => parse_class(entity, config),
            EntityKind::ObjCCategoryDecl => parse_category(entity, config),
            EntityKind::ObjCProtocolDecl => parse_protocol(entity, config),
            EntityKind::TypedefDecl => parse_typedef(entity, config),
            EntityKind::StructDecl => parse_struct_decl(entity, config),
            EntityKind::EnumDecl => parse_enum(entity, config),
            EntityKind::VarDecl => parse_var(entity, config),
            EntityKind::FunctionDecl => parse_fn(entity, config),
            _ => Err(StructuralError::UnknownEntity),
        }
    }
}

// -------------------------------------------------------------------- laws
/// Whether one of the children is of the kind `kind`.
pub open spec fn has_child_of_kind(children: Seq<EntityView>, kind: EntityKind) -> bool {
    exists|i: int| 0 <= i < children.len() && (#[trigger] children[i]).kind == kind
}

/// Whether one of the first `n` children is of the kind `kind`.
pub open spec fn kind_before(children: Seq<EntityView>, kind: EntityKind, n: int) -> bool {
    exists|i: int| 0 <= i < n && i < children.len() && (#[trigger] children[i]).kind == kind
}

/// Whether the superclass slot of `state` is accounted for by the first `n`
/// children: a root class by a root class marker, a parent by a superclass
/// reference.
pub open spec fn slot_accounted(children: Seq<EntityView>, state: ResolverState, n: int) -> bool {
    match state.superclass {
        None => true,
        Some(None) => kind_before(children, EntityKind::ObjCRootClass, n),
        Some(Some(_)) => kind_before(children, EntityKind::ObjCSuperClassRef, n),
    }
}

proof fn lemma_slot_accounted(
    children: Seq<EntityView>,
    want_superclass: bool,
    want_generics: bool,
    data: Option<ClassDataView>,
    state: ResolverState,
    n: int,
)
    requires
        0 <= n <= children.len(),
        slot_accounted(children, state, n),
        walk(children, resolve_step(want_superclass, want_generics, data), state, n) is Ok,
    ensures
        slot_accounted(
            children,
            walk(children, resolve_step(want_superclass, want_generics, data), state, n)->Ok_0,
            children.len() as int,
        ),
    decreases children.len() - n,
{
    if n < children.len() {
        let step = resolve_step(want_superclass, want_generics, data);
        let m = n + 1;
        let next = step(state, children[n])->Ok_0;
        assert(step(state, children[n]) == resolve_child(
            state,
            children[n],
            want_superclass,
            want_generics,
            data,
        ));
        if kind_before(children, EntityKind::ObjCRootClass, n) {
            let i = choose|i: int|
                0 <= i < n && i < children.len() && (#[trigger] children[i]).kind
                    == EntityKind::ObjCRootClass;
            assert(0 <= i < m && children[i].kind == EntityKind::ObjCRootClass);
        }
        if kind_before(children, EntityKind::ObjCSuperClassRef, n) {
            let i = choose|i: int|
                0 <= i < n && i < children.len() && (#[trigger] children[i]).kind
                    == EntityKind::ObjCSuperClassRef;
            assert(0 <= i < m && children[i].kind == EntityKind::ObjCSuperClassRef);
        }
        assert(0 <= n < m && children[n].kind == children[n].kind);
        assert(slot_accounted(children, next, m));
        lemma_slot_accounted(children, want_superclass, want_generics, data, next, m);
    }
}

proof fn lemma_typedef_finds_struct(
    children: Seq<EntityView>,
    name: Seq<char>,
    config: ConfigView,
    state: TypedefState,
    n: int,
)
    requires
        0 <= n <= children.len(),
        state.found is Some ==> state.found->Some_0 is StructDecl,
        walk(children, typedef_step(name, config), state, n) is Ok,
    ensures
        ({
            let after = walk(children, typedef_step(name, config), state, n)->Ok_0;
            after.found is Some ==> after.found->Some_0 is StructDecl
        }),
    decreases children.len() - n,
{
    if n < children.len() {
        let step = typedef_step(name, config);
        assert(step(state, children[n]) == typedef_child(state, children[n], name, config));
        lemma_typedef_finds_struct(children, name, config, step(state, children[n])->Ok_0, n + 1);
    }
}

/// Only an interface is classified as a class.
pub proof fn lemma_class_from_interface(entity: EntityView, config: ConfigView)
    ensures
        classify(entity, config) is Ok && classify(entity, config)->Ok_0 is Some && classify(
            entity,
            config,
        )->Ok_0->Some_0 is ClassDecl ==> entity.kind == EntityKind::ObjCInterfaceDecl,
{
    if entity.kind == EntityKind::TypedefDecl && entity.name is Some {
        let name = entity.name->Some_0;
        let start = TypedefState { found: None, skip_struct: false };
        if walk(entity.children, typedef_step(name, config), start, 0) is Ok {
            lemma_typedef_finds_struct(entity.children, name, config, start, 0);
        }
    }
}

/// Superclass totality: a class that classification makes a statement of
/// has its superclass slot settled, whatever entity it was made of. It
/// names a parent, or it is a root class and one of the entity's children
/// is the root class marker. A parent is the one that the override names,
/// or one of the children is a superclass reference. A class for which
/// neither was found makes no statement: it is the inconsistency of a
/// missing superclass.
pub proof fn lemma_superclass_total(entity: EntityView, config: ConfigView)
    ensures
        match classify(entity, config) {
            Ok(Some(StmtView::ClassDecl { superclass: None, .. })) => has_child_of_kind(
                entity.children,
                EntityKind::ObjCRootClass,
            ),
            Ok(Some(StmtView::ClassDecl { superclass: Some(parent), .. })) => (match lookup_spec(
                config.class_data,
                entity.name->Some_0,
            ) {
                Some(ClassDataView { new_superclass_name: Some(new_name), .. }) => parent.name
                    == new_name,
                _ => has_child_of_kind(entity.children, EntityKind::ObjCSuperClassRef),
            }),
            _ => true,
        },
{
    lemma_class_from_interface(entity, config);
    if entity.kind == EntityKind::ObjCInterfaceDecl && entity.name is Some {
        let name = entity.name->Some_0;
        let data = lookup_spec(config.class_data, name);
        if resolve_walk(entity.children, true, true, data) is Ok {
            lemma_slot_accounted(
                entity.children,
                true,
                true,
                data,
                crate::resolve::resolve_start(),
                0,
            );
            let state = resolve_walk(entity.children, true, true, data)->Ok_0;
            let n = entity.children.len() as int;
            if kind_before(entity.children, EntityKind::ObjCRootClass, n) {
                let i = choose|i: int|
                    0 <= i < n && i < entity.children.len() && (#[trigger] entity.children[i]).kind
                        == EntityKind::ObjCRootClass;
                assert(entity.children[i].kind == EntityKind::ObjCRootClass);
            }
            if kind_before(entity.children, EntityKind::ObjCSuperClassRef, n) {
                let i = choose|i: int|
                    0 <= i < n && i < entity.children.len() && (#[trigger] entity.children[i]).kind
                        == EntityKind::ObjCSuperClassRef;
                assert(entity.children[i].kind == EntityKind::ObjCSuperClassRef);
            }
        }
    }
}

/// Whether the superclass slot of `state` is as the root class marker
/// leaves it: the root slot once a marker was met, unset before.
pub open spec fn root_slot(children: Seq<EntityView>, state: ResolverState, n: int) -> bool {
    if kind_before(children, EntityKind::ObjCRootClass, n) {
        state.superclass == Some(None::<GenericTypeView>)
    } else {
        state.superclass is None
    }
}

proof fn lemma_root_slot(
    children: Seq<EntityView>,
    want_generics: bool,
    data: Option<ClassDataView>,
    state: ResolverState,
    n: int,
)
    requires
        0 <= n <= children.len(),
        !has_child_of_kind(children, EntityKind::ObjCSuperClassRef),
        root_slot(children, state, n),
        walk(children, resolve_step(true, want_generics, data), state, n) is Ok,
    ensures
        root_slot(
            children,
            walk(children, resolve_step(true, want_generics, data), state, n)->Ok_0,
            children.len() as int,
        ),
    decreases children.len() - n,
{
    if n < children.len() {
        let step = resolve_step(true, want_generics, data);
        let m = n + 1;
        let next = step(state, children[n])->Ok_0;
        assert(step(state, children[n]) == resolve_child(
            state,
            children[n],
            true,
            want_generics,
            data,
        ));
        assert(children[n].kind != EntityKind::ObjCSuperClassRef);
        if kind_before(children, EntityKind::ObjCRootClass, n) {
            let i = choose|i: int|
                0 <= i < n && i < children.len() && (#[trigger] children[i]).kind
                    == EntityKind::ObjCRootClass;
            assert(0 <= i < m && children[i].kind == EntityKind::ObjCRootClass);
        }
        if children[n].kind == EntityKind::ObjCRootClass {
            assert(0 <= n < m && children[n].kind == EntityKind::ObjCRootClass);
        } else if kind_before(children, EntityKind::ObjCRootClass, m) {
            let i = choose|i: int|
                0 <= i < m && i < children.len() && (#[trigger] children[i]).kind
                    == EntityKind::ObjCRootClass;
            assert(0 <= i < n && children[i].kind == EntityKind::ObjCRootClass);
        }
        assert(root_slot(children, next, m));
        lemma_root_slot(children, want_generics, data, next, m);
    }
}

/// A root class: an interface that is not skipped, has a name and
/// availability, holds the root class marker and no superclass reference,
/// and has no superclass configured, is classified as a class with the
/// entity's name and the root slot, with what the member resolver finds.
/// Where the resolver meets an inconsistency, that is the outcome.
pub proof fn lemma_root_class(entity: EntityView, config: ConfigView)
    requires
        entity.kind == EntityKind::ObjCInterfaceDecl,
        entity.name is Some,
        entity.availability is Some,
        !class_skipped(lookup_spec(config.class_data, entity.name->Some_0)),
        has_child_of_kind(entity.children, EntityKind::ObjCRootClass),
        !has_child_of_kind(entity.children, EntityKind::ObjCSuperClassRef),
        match lookup_spec(config.class_data, entity.name->Some_0) {
            Some(data) => data.new_superclass_name is None,
            None => true,
        },
    ensures
        match resolve(
            entity.children,
            true,
            true,
            lookup_spec(config.class_data, entity.name->Some_0),
        ) {
            Ok(decl) => classify(entity, config) == Ok::<Option<StmtView>, StructuralError>(
                Some(
                    StmtView::ClassDecl {
                        ty: GenericTypeView { name: entity.name->Some_0, generics: decl.generics },
                        availability: entity.availability->Some_0,
                        superclass: None,
                        protocols: decl.protocols,
                        methods: decl.methods,
                        derives: class_derives(
                            lookup_spec(config.class_data, entity.name->Some_0),
                        ),
                    },
                ),
            ),
            Err(e) => classify(entity, config) == Err::<Option<StmtView>, StructuralError>(e),
        },
{
    let data = lookup_spec(config.class_data, entity.name->Some_0);
    let children = entity.children;
    if resolve_walk(children, true, true, data) is Ok {
        let n = children.len() as int;
        assert(!kind_before(children, EntityKind::ObjCRootClass, 0));
        lemma_root_slot(children, true, data, crate::resolve::resolve_start(), 0);
        let i = choose|i: int|
            0 <= i < children.len() && (#[trigger] children[i]).kind == EntityKind::ObjCRootClass;
        assert(0 <= i < n && children[i].kind == EntityKind::ObjCRootClass);
        assert(kind_before(children, EntityKind::ObjCRootClass, n));
    }
}

/// Classification depends on nothing but the values of the entity and the
/// table: two runs over entities of the same value give the same outcome,
/// so the statements of the two runs compare equal.
pub proof fn lemma_classification_repeatable(
    first: Entity,
    second: Entity,
    first_config: Config,
    second_config: Config,
)
    requires
        first@ == second@,
        first_config@ == second_config@,
    ensures
        classify(first@, first_config@) == classify(second@, second_config@),
{
}

} // verus!
