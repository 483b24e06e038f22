//! Methods of classes, categories and protocols, and the parameter lists
//! that methods and functions share.

use vstd::prelude::*;
use crate::availability::Availability;
use crate::config::ItemData;
use crate::entity::{Entity, EntityKind, EntityView, TypeKind};
use crate::error::{result_view, StructuralError};
use crate::rust_type::{parameters_text, push_parameters, same_fields, Ty, TyMode, TyView};
use crate::text::{
    handle_reserved_spec,
    push_handle_reserved,
    push_selector_fn_name,
    selector_fn_name,
    str_equal,
};
use crate::unexposed_macro::UnexposedMacro;

verus! {

/// The kind that an attribute node gives, if its macro gives one.
pub open spec fn attribute_kind(entity: EntityView) -> Option<UnexposedMacro> {
    match entity.name {
        Some(name) => UnexposedMacro::parse_spec(name),
        None => None,
    }
}

/// Reads the macro of an attribute node.
pub fn parse_attribute(entity: &Entity) -> (r: Option<UnexposedMacro>)
    ensures
        r == attribute_kind(entity@),
{
    match &entity.name {
        Some(name) => UnexposedMacro::parse(name.as_str()),
        None => None,
    }
}

/// What one child of a function or method adds to the parameter list: a
/// parameter, nothing, or an inconsistency. A parameter without a name is
/// called `_`.
pub open spec fn parameter_of(child: EntityView, mode: TyMode) -> Result<
    Option<(Seq<char>, TyView)>,
    StructuralError,
> {
    match child.kind {
        EntityKind::ParmDecl => match child.ty {
            None => Err(StructuralError::MissingType),
            Some(desc) => Ok(
                Some(
                    (
                        match child.name {
                            Some(name) => name,
                            None => "_"@,
                        },
                        TyView::parse(desc, mode),
                    ),
                ),
            ),
        },
        EntityKind::UnexposedAttr => if attribute_kind(child) is Some {
            Err(StructuralError::UnexpectedAttribute)
        } else {
            Ok(None)
        },
        EntityKind::ObjCClassRef | EntityKind::TypeRef => Ok(None),
        EntityKind::ObjCProtocolRef => if mode == TyMode::MethodArgument {
            Ok(None)
        } else {
            Err(StructuralError::UnknownChild)
        },
        _ => Err(StructuralError::UnknownChild),
    }
}

/// The parameters that the children from `i` on add to `acc`, in order; the
/// inconsistency of the first child that has one.
pub open spec fn parameters_from(
    children: Seq<EntityView>,
    mode: TyMode,
    acc: Seq<(Seq<char>, TyView)>,
    i: int,
) -> Result<Seq<(Seq<char>, TyView)>, StructuralError>
    decreases children.len() - i,
{
    if i < 0 || i >= children.len() {
        Ok(acc)
    } else {
        match parameter_of(children[i], mode) {
            Err(e) => Err(e),
            Ok(None) => parameters_from(children, mode, acc, i + 1),
            Ok(Some(p)) => parameters_from(children, mode, acc.push(p), i + 1),
        }
    }
}

/// The parameter list that `children` declare.
pub open spec fn parameters(children: Seq<EntityView>, mode: TyMode) -> Result<
    Seq<(Seq<char>, TyView)>,
    StructuralError,
> {
    parameters_from(children, mode, Seq::empty(), 0)
}

/// Reads the parameter list of a function or method from its children.
pub fn parse_parameters(entity: &Entity, mode: TyMode) -> (r: Result<
    Vec<(String, Ty)>,
    StructuralError,
>)
    ensures
        result_view(r) == parameters(entity@.children, mode),
{
    let mut out: Vec<(String, Ty)> = Vec::new();
    let mut i: usize = 0;
    assert(out.deep_view() =~= Seq::empty());
    while i < entity.children.len()
        invariant
            i <= entity.children.len(),
            parameters(entity@.children, mode) == parameters_from(
                entity@.children,
                mode,
                out.deep_view(),
                i as int,
            ),
        decreases entity.children.len() - i,
    {
        let child = &entity.children[i];
        assert(entity@.children[i as int] == child@);
        let ghost before = out.deep_view();
        match child.kind {
            EntityKind::ParmDecl => {
                match &child.ty {
                    None => {
                        return Err(StructuralError::MissingType);
                    },
                    Some(desc) => {
                        let name = match &child.name {
                            Some(name) => name.clone(),
                            None => String::from_str("_"),
                        };
                        out.push((name, Ty::parse(desc, mode)));
                        assert(out.deep_view() =~= before.push(
                            parameter_of(child@, mode)->Ok_0->Some_0,
                        ));
                    },
                }
            },
            EntityKind::UnexposedAttr => {
                if parse_attribute(child).is_some() {
                    return Err(StructuralError::UnexpectedAttribute);
                }
            },
            EntityKind::ObjCClassRef | EntityKind::TypeRef => {},
            EntityKind::ObjCProtocolRef => {
                if mode != TyMode::MethodArgument {
                    return Err(StructuralError::UnknownChild);
                }
            },
            _ => {
                return Err(StructuralError::UnknownChild);
            },
        }
        i += 1;
    }
    Ok(out)
}

/// A method of a class, category or protocol.
#[derive(Debug, Clone, PartialEq, Eq)]
pub struct Method {
    pub selector: String,
    /// Whether the method belongs to the class rather than its instances.
    pub is_class: bool,
    pub arguments: Vec<(String, Ty)>,
    pub result_type: Ty,
    pub availability: Availability,
    /// Whether the method reports failure through a trailing error
    /// parameter. That parameter is then not among `arguments`.
    pub is_error: bool,
}

/// The mathematical value of a [`Method`].
pub struct MethodView {
    pub selector: Seq<char>,
    pub is_class: bool,
    pub arguments: Seq<(Seq<char>, TyView)>,
    pub result_type: TyView,
    pub availability: Availability,
    pub is_error: bool,
}

impl View for Method {
    type V = MethodView;

    open spec fn view(&self) -> MethodView {
        MethodView {
            selector: self.selector@,
            is_class: self.is_class,
            arguments: self.arguments.deep_view(),
            result_type: self.result_type@,
            availability: self.availability,
            is_error: self.is_error,
        }
    }
}

impl DeepView for Method {
    type V = MethodView;

    open spec fn deep_view(&self) -> MethodView {
        self.view()
    }
}

/// The receiver at the head of a member's parameter list: `&self` for a
/// member of the instances, nothing for a member of the class.
pub open spec fn receiver_text(is_class: bool) -> Seq<char> {
    if is_class {
        Seq::empty()
    } else {
        "&self, "@
    }
}

/// The head of a member: the attribute that names the selector, and the
/// function's name with the opening parenthesis and the receiver.
pub open spec fn member_head(selector: Seq<char>, suffix: Seq<char>, is_class: bool) -> Seq<char> {
    "        #[method("@ + selector + suffix + ")]\n        pub unsafe fn "@
        + handle_reserved_spec(selector_fn_name(selector)) + "("@ + receiver_text(is_class)
}

/// Appends the head of a member to `out`.
pub fn push_member_head(out: &mut String, selector: &str, suffix: &str, is_class: bool)
    ensures
        final(out)@ == old(out)@ + member_head(selector@, suffix@, is_class),
{
    out.append("        #[method(");
    out.append(selector);
    out.append(suffix);
    out.append(")]\n        pub unsafe fn ");
    let mut name = String::new();
    push_selector_fn_name(&mut name, selector);
    assert(name@ =~= selector_fn_name(selector@));
    push_handle_reserved(out, name.as_str());
    out.append("(");
    if !is_class {
        out.append("&self, ");
    }
    assert(out@ =~= old(out)@ + member_head(selector@, suffix@, is_class));
}

impl MethodView {
    /// The method that `entity` declares under the override `data`. A
    /// skipped or variadic method gives none. A trailing parameter of error
    /// pointer type is taken out of the list and recorded as the error
    /// convention.
    pub open spec fn parse(entity: EntityView, data: ItemData) -> Result<
        Option<MethodView>,
        StructuralError,
    > {
        match entity.name {
            None => Err(StructuralError::MissingName),
            Some(selector) => if data.skipped || entity.is_variadic {
                Ok(None)
            } else {
                match entity.availability {
                    None => Err(StructuralError::MissingAvailability),
                    Some(availability) => match entity.result_type {
                        None => Err(StructuralError::MissingType),
                        Some(result) => match parameters(
                            entity.children,
                            TyMode::MethodArgument,
                        ) {
                            Err(e) => Err(e),
                            Ok(arguments) => {
                                let is_error = arguments.len() > 0 && arguments.last().1.kind
                                    == TypeKind::ErrorPointer;
                                Ok(
                                    Some(
                                        MethodView {
                                            selector,
                                            is_class: entity.kind
                                                == EntityKind::ObjCClassMethodDecl,
                                            arguments: if is_error {
                                                arguments.drop_last()
                                            } else {
                                                arguments
                                            },
                                            result_type: TyView::parse(
                                                result,
                                                TyMode::MethodReturn,
                                            ),
                                            availability,
                                            is_error,
                                        },
                                    ),
                                )
                            },
                        },
                    },
                }
            },
        }
    }

    /// The result of a method that follows the error convention: success
    /// holds the declared result, failure the error object.
    pub open spec fn error_result_text(self) -> Seq<char> {
        " -> Result<"@ + (if self.result_type.kind == TypeKind::Void {
            "()"@
        } else {
            self.result_type.name
        }) + ", Id<NSError, Shared>>"@
    }

    /// The method as generated source declares it.
    pub open spec fn text(self) -> Seq<char> {
        member_head(
            self.selector,
            if self.is_error {
                "_"@
            } else {
                Seq::empty()
            },
            self.is_class,
        ) + parameters_text(self.arguments) + ")"@ + (if self.is_error {
            self.error_result_text()
        } else {
            self.result_type.text()
        }) + ";"@
    }
}

impl Method {
    /// Reads the method that `entity` declares, under the override `data`.
    pub fn parse(entity: &Entity, data: ItemData) -> (r: Result<Option<Method>, StructuralError>)
        ensures
            result_view(r) == MethodView::parse(entity@, data),
    {
        let selector = match &entity.name {
            None => {
                return Err(StructuralError::MissingName);
            },
            Some(name) => name.clone(),
        };
        if data.skipped || entity.is_variadic {
            return Ok(None);
        }
        let availability = match entity.availability {
            None => {
                return Err(StructuralError::MissingAvailability);
            },
            Some(availability) => availability,
        };
        let result_type = match &entity.result_type {
            None => {
                return Err(StructuralError::MissingType);
            },
            Some(desc) => Ty::parse(desc, TyMode::MethodReturn),
        };
        let mut arguments = match parse_parameters(entity, TyMode::MethodArgument) {
            Err(e) => {
                return Err(e);
            },
            Ok(arguments) => arguments,
        };
        let ghost all = arguments.deep_view();
        let is_error = arguments.len() > 0 && arguments[arguments.len() - 1].1.kind
            == TypeKind::ErrorPointer;
        if is_error {
            arguments.pop();
            assert(arguments.deep_view() =~= all.drop_last());
        }
        Ok(
            Some(
                Method {
                    selector,
                    is_class: entity.kind == EntityKind::ObjCClassMethodDecl,
                    arguments,
                    result_type,
                    availability,
                    is_error,
                },
            ),
        )
    }

    /// Appends the method's declaration to `out`.
    pub fn push_text(&self, out: &mut String)
        ensures
            final(out)@ == old(out)@ + self@.text(),
    {
        if self.is_error {
            push_member_head(out, self.selector.as_str(), "_", self.is_class);
        } else {
            push_member_head(out, self.selector.as_str(), "", self.is_class);
            assert(""@ =~= Seq::<char>::empty()) by {
                reveal_strlit("");
            }
        }
        push_parameters(out, &self.arguments);
        out.append(")");
        if self.is_error {
            out.append(" -> Result<");
            if self.result_type.kind == TypeKind::Void {
                out.append("()");
            } else {
                out.append(self.result_type.name.as_str());
            }
            out.append(", Id<NSError, Shared>>");
        } else {
            self.result_type.push_text(out);
        }
        out.append(";");
        assert(out@ =~= old(out)@ + self@.text());
    }

    /// Whether the two methods have the same value.
    pub fn same(&self, other: &Method) -> (r: bool)
        ensures
            r == (self@ == other@),
    {
        str_equal(self.selector.as_str(), other.selector.as_str()) && self.is_class
            == other.is_class && same_fields(&self.arguments, &other.arguments)
            && self.result_type.same(&other.result_type) && self.availability
            == other.availability && self.is_error == other.is_error
    }
}

} // verus!
