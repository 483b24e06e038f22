//! Declarations as the header parser hands them over: a tree of nodes, each
//! with a kind, a name, a type descriptor, availability and children.

use vstd::prelude::*;
use crate::availability::Availability;
use crate::text::str_equal;

verus! {

/// What a type is, as far as classification and rendering depend on it.
#[derive(Debug, Clone, Copy, PartialEq, Eq, Structural)]
pub enum TypeKind {
    /// No value.
    Void,
    /// A signed integer.
    SignedInteger,
    /// An unsigned integer.
    UnsignedInteger,
    /// A pointer to a function; the statements have no form for it.
    FunctionPointer,
    /// A pointer through which a call hands back an error object.
    ErrorPointer,
    /// Any other type.
    Other,
}

/// The kind of a type, from what the parser says of it. `pointee` is set
/// for a pointer: whether it points to a function, and otherwise the name
/// of what its pointee points to in turn, where that is a pointer too. Void
/// and the integers come first; a pointer to a function is a function
/// pointer; a pointer to a pointer to `NSError` is an error pointer.
pub open spec fn type_kind_spec(
    is_void: bool,
    is_signed: bool,
    is_unsigned: bool,
    pointee: Option<(bool, Option<Seq<char>>)>,
) -> TypeKind {
    if is_void {
        TypeKind::Void
    } else if is_signed {
        TypeKind::SignedInteger
    } else if is_unsigned {
        TypeKind::UnsignedInteger
    } else {
        match pointee {
            Some((true, _)) => TypeKind::FunctionPointer,
            Some((false, Some(name))) => if name == "NSError"@ {
                TypeKind::ErrorPointer
            } else {
                TypeKind::Other
            },
            _ => TypeKind::Other,
        }
    }
}

/// Tells the kind of a type from what the parser says of it.
pub fn type_kind(
    is_void: bool,
    is_signed: bool,
    is_unsigned: bool,
    pointee: Option<(bool, Option<String>)>,
) -> (r: TypeKind)
    ensures
        r == type_kind_spec(is_void, is_signed, is_unsigned, pointee.deep_view()),
{
    if is_void {
        TypeKind::Void
    } else if is_signed {
        TypeKind::SignedInteger
    } else if is_unsigned {
        TypeKind::UnsignedInteger
    } else {
        match &pointee {
            Some((true, _)) => TypeKind::FunctionPointer,
            Some((false, Some(name))) => {
                if str_equal(name.as_str(), "NSError") {
                    TypeKind::ErrorPointer
                } else {
                    TypeKind::Other
                }
            },
            _ => TypeKind::Other,
        }
    }
}

/// A type as the parser describes it: its kind, and its name as generated
/// source writes it.
#[derive(Debug, Clone, PartialEq, Eq)]
pub struct TypeDescriptor {
    pub kind: TypeKind,
    pub name: String,
}

/// The mathematical value of a [`TypeDescriptor`].
pub struct TypeDescriptorView {
    pub kind: TypeKind,
    pub name: Seq<char>,
}

impl View for TypeDescriptor {
    type V = TypeDescriptorView;

    open spec fn view(&self) -> TypeDescriptorView {
        TypeDescriptorView { kind: self.kind, name: self.name@ }
    }
}

impl DeepView for TypeDescriptor {
    type V = TypeDescriptorView;

    open spec fn deep_view(&self) -> TypeDescriptorView {
        self.view()
    }
}

/// The kinds of node that classification tells apart. Every kind of
/// expression is `Expression`; what is not listed is `Other`.
#[derive(Debug, Clone, Copy, PartialEq, Eq, Structural)]
pub enum EntityKind {
    ObjCInterfaceDecl,
    ObjCCategoryDecl,
    ObjCProtocolDecl,
    TypedefDecl,
    StructDecl,
    UnionDecl,
    EnumDecl,
    VarDecl,
    FunctionDecl,
    ObjCClassRef,
    ObjCProtocolRef,
    ObjCSuperClassRef,
    ObjCRootClass,
    TemplateTypeParameter,
    TypeRef,
    ObjCInstanceMethodDecl,
    ObjCClassMethodDecl,
    ObjCPropertyDecl,
    ObjCIvarDecl,
    ObjCExplicitProtocolImpl,
    ObjCException,
    ObjCBoxable,
    FieldDecl,
    EnumConstantDecl,
    ParmDecl,
    FlagEnum,
    UnexposedAttr,
    VisibilityAttr,
    Expression,
    Other,
}

/// One node of a parsed declaration.
#[derive(Debug)]
pub struct Entity {
    pub kind: EntityKind,
    /// The declared or referenced name; absent for anonymous declarations.
    pub name: Option<String>,
    /// The declared type; for a typedef or an enumeration the underlying
    /// type.
    pub ty: Option<TypeDescriptor>,
    /// The result type of a function or method.
    pub result_type: Option<TypeDescriptor>,
    pub availability: Option<Availability>,
    /// The value of an enumeration constant, read as signed and as unsigned.
    pub constant_value: Option<(i64, u64)>,
    /// The text of an expression, where it can be represented.
    pub expression: Option<String>,
    /// The selector of a property's getter.
    pub getter: Option<String>,
    /// The selector of a property's setter, where the property can be set.
    pub setter: Option<String>,
    /// Whether this occurrence of a declaration defines it.
    pub is_definition: bool,
    pub is_variadic: bool,
    /// Whether a function carries its body.
    pub is_inline: bool,
    pub is_static_method: bool,
    /// Whether a property belongs to the class rather than its instances.
    pub is_class: bool,
    pub children: Vec<Entity>,
}

/// The mathematical value of an [`Entity`].
pub struct EntityView {
    pub kind: EntityKind,
    pub name: Option<Seq<char>>,
    pub ty: Option<TypeDescriptorView>,
    pub result_type: Option<TypeDescriptorView>,
    pub availability: Option<Availability>,
    pub constant_value: Option<(i64, u64)>,
    pub expression: Option<Seq<char>>,
    pub getter: Option<Seq<char>>,
    pub setter: Option<Seq<char>>,
    pub is_definition: bool,
    pub is_variadic: bool,
    pub is_inline: bool,
    pub is_static_method: bool,
    pub is_class: bool,
    pub children: Seq<EntityView>,
}

impl View for Entity {
    type V = EntityView;

    open spec fn view(&self) -> EntityView {
        self.value()
    }
}

impl DeepView for Entity {
    type V = EntityView;

    open spec fn deep_view(&self) -> EntityView {
        self.value()
    }
}

impl Entity {
    /// The value of the node: its own data and the values of its children.
    pub open spec fn value(&self) -> EntityView
        decreases self,
    {
        EntityView {
            kind: self.kind,
            name: self.name.deep_view(),
            ty: self.ty.deep_view(),
            result_type: self.result_type.deep_view(),
            availability: self.availability,
            constant_value: self.constant_value,
            expression: self.expression.deep_view(),
            getter: self.getter.deep_view(),
            setter: self.setter.deep_view(),
            is_definition: self.is_definition,
            is_variadic: self.is_variadic,
            is_inline: self.is_inline,
            is_static_method: self.is_static_method,
            is_class: self.is_class,
            children: Seq::new(
                self.children.len() as nat,
                |i: int|
                    if 0 <= i < self.children.len() {
                        self.children[i].value()
                    } else {
                        arbitrary()
                    },
            ),
        }
    }

    /// A node of the given kind with nothing else set and no children.
    pub fn new(kind: EntityKind) -> (r: Entity)
        ensures
            r@ == EntityView::bare(kind),
    {
        let r = Entity {
            kind,
            name: None,
            ty: None,
            result_type: None,
            availability: None,
            constant_value: None,
            expression: None,
            getter: None,
            setter: None,
            is_definition: false,
            is_variadic: false,
            is_inline: false,
            is_static_method: false,
            is_class: false,
            children: Vec::new(),
        };
        assert(r@.children =~= Seq::empty());
        r
    }

    /// A node of the given kind and name with nothing else set.
    pub fn named(kind: EntityKind, name: &str) -> (r: Entity)
        ensures
            r@ == (EntityView { name: Some(name@), ..EntityView::bare(kind) }),
    {
        let mut r = Entity::new(kind);
        r.name = Some(String::from_str(name));
        r
    }
}

impl EntityView {
    /// The node of the given kind with nothing else set and no children.
    pub open spec fn bare(kind: EntityKind) -> EntityView {
        EntityView {
            kind,
            name: None,
            ty: None,
            result_type: None,
            availability: None,
            constant_value: None,
            expression: None,
            getter: None,
            setter: None,
            is_definition: false,
            is_variadic: false,
            is_inline: false,
            is_static_method: false,
            is_class: false,
            children: Seq::empty(),
        }
    }
}

} // verus!
