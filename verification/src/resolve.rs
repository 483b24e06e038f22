//! The member resolver: one walk over the children of a class, category or
//! protocol that finds the superclass, the generic parameters, the adopted
//! protocols and the members, and merges the accessor methods that the
//! compiler made for properties into those properties.

use vstd::prelude::*;
use crate::config::{lookup, lookup_spec, ClassData, ClassDataView, ItemData};
use crate::entity::{Entity, EntityKind, EntityView};
use crate::error::{result_view, StructuralError};
use crate::method::{Method, MethodView};
use crate::property::{Property, PropertyView};
use crate::rust_type::{GenericType, GenericTypeView};
use crate::selector_set::SelectorSet;
use crate::stmt::{MemberView, MethodOrProperty};

verus! {

/// A walk over `children` from position `i` on: each child in order takes
/// the state to the next one; the first inconsistency ends the walk.
pub open spec fn walk<S>(
    children: Seq<EntityView>,
    step: spec_fn(S, EntityView) -> Result<S, StructuralError>,
    state: S,
    i: int,
) -> Result<S, StructuralError>
    decreases children.len() - i,
{
    if i < 0 || i >= children.len() {
        Ok(state)
    } else {
        match step(state, children[i]) {
            Err(e) => Err(e),
            Ok(next) => walk(children, step, next, i + 1),
        }
    }
}

/// What the walk over the children of a class, category or protocol has
/// found so far.
pub struct ResolverState {
    /// `None` while nothing was found; `Some(None)` for a root class;
    /// `Some(Some(..))` for a parent.
    pub superclass: Option<Option<GenericTypeView>>,
    pub generics: Seq<GenericTypeView>,
    pub protocols: Seq<Seq<char>>,
    pub members: Seq<MemberView>,
    /// The accessor selectors that properties have announced and that no
    /// method has taken up yet.
    pub pending: Set<(bool, Seq<char>)>,
}

/// The type called `name`, without generic arguments.
pub open spec fn plain_type(name: Seq<char>) -> GenericTypeView {
    GenericTypeView { name, generics: Seq::empty() }
}

/// What is configured for the method with the given selector; nothing is
/// skipped where nothing is configured.
pub open spec fn method_data(data: Option<ClassDataView>, selector: Seq<char>) -> ItemData {
    match data {
        Some(data) => match lookup_spec(data.methods, selector) {
            Some(found) => found,
            None => ItemData { skipped: false },
        },
        None => ItemData { skipped: false },
    }
}

/// What is configured for the property with the given name.
pub open spec fn property_data(data: Option<ClassDataView>, name: Seq<char>) -> ItemData {
    match data {
        Some(data) => match lookup_spec(data.properties, name) {
            Some(found) => found,
            None => ItemData { skipped: false },
        },
        None => ItemData { skipped: false },
    }
}

/// The selector that is left pending without it being an inconsistency: the
/// setter of the display name of an instance, `setDisplayName:`, which no
/// method takes up. Selectors are compared as they are written, with their
/// colons.
pub open spec fn tolerated_pending() -> Set<(bool, Seq<char>)> {
    Set::<(bool, Seq<char>)>::empty().insert((false, "setDisplayName:"@))
}

/// What a method child does to the state. A method whose selector is pending
/// is the accessor of a property: it is taken off the pending set and makes no
/// member. Any other method is read, and is a member unless it is skipped.
pub open spec fn resolve_method(
    state: ResolverState,
    child: EntityView,
    data: Option<ClassDataView>,
) -> Result<ResolverState, StructuralError> {
    match child.name {
        None => Err(StructuralError::MissingName),
        Some(selector) => {
            let key = (child.kind == EntityKind::ObjCClassMethodDecl, selector);
            if state.pending.contains(key) {
                Ok(ResolverState { pending: state.pending.remove(key), ..state })
            } else {
                match MethodView::parse(child, method_data(data, selector)) {
                    Err(e) => Err(e),
                    Ok(None) => Ok(state),
                    Ok(Some(method)) => Ok(
                        ResolverState {
                            members: state.members.push(MemberView::Method(method)),
                            ..state
                        },
                    ),
                }
            }
        },
    }
}

/// What a property child does to the state. Its getter, and its setter
/// where it has one, become pending; a selector that is pending already is
/// an inconsistency. The property is then read, and is a member unless it
/// is skipped.
pub open spec fn resolve_property(
    state: ResolverState,
    child: EntityView,
    data: Option<ClassDataView>,
) -> Result<ResolverState, StructuralError> {
    match (child.name, child.getter) {
        (Some(name), Some(getter)) => {
            if state.pending.contains((child.is_class, getter)) {
                Err(StructuralError::DuplicateProperty)
            } else {
                let with_getter = state.pending.insert((child.is_class, getter));
                if child.setter is Some && with_getter.contains(
                    (child.is_class, child.setter->Some_0),
                ) {
                    Err(StructuralError::DuplicateProperty)
                } else {
                    let pending = match child.setter {
                        Some(setter) => with_getter.insert((child.is_class, setter)),
                        None => with_getter,
                    };
                    match PropertyView::parse(child, property_data(data, name)) {
                        Err(e) => Err(e),
                        Ok(None) => Ok(ResolverState { pending, ..state }),
                        Ok(Some(property)) => Ok(
                            ResolverState {
                                pending,
                                members: state.members.push(MemberView::Property(property)),
                                ..state
                            },
                        ),
                    }
                }
            }
        },
        _ => Err(StructuralError::MissingName),
    }
}

/// What one child does to the state. `want_superclass` and `want_generics`
/// say which slots the declaration has: a class has both, a category only
/// generics, a protocol neither.
pub open spec fn resolve_child(
    state: ResolverState,
    child: EntityView,
    want_superclass: bool,
    want_generics: bool,
    data: Option<ClassDataView>,
) -> Result<ResolverState, StructuralError> {
    match child.kind {
        EntityKind::ObjCExplicitProtocolImpl => if !want_generics && !want_superclass {
            Ok(state)
        } else {
            Err(StructuralError::UnknownChild)
        },
        EntityKind::ObjCIvarDecl | EntityKind::ObjCException => if want_superclass {
            Ok(state)
        } else {
            Err(StructuralError::UnknownChild)
        },
        EntityKind::ObjCClassRef => if want_generics {
            Ok(state)
        } else {
            Err(StructuralError::UnknownChild)
        },
        EntityKind::VisibilityAttr | EntityKind::UnexposedAttr => Ok(state),
        EntityKind::ObjCSuperClassRef => if !want_superclass {
            Err(StructuralError::UnsupportedChild)
        } else {
            match child.name {
                None => Err(StructuralError::MissingName),
                Some(name) => Ok(
                    ResolverState { superclass: Some(Some(plain_type(name))), ..state },
                ),
            }
        },
        EntityKind::ObjCRootClass => if !want_superclass {
            Err(StructuralError::UnsupportedChild)
        } else {
            Ok(ResolverState { superclass: Some(None), ..state })
        },
        EntityKind::TemplateTypeParameter => if !want_generics {
            Err(StructuralError::UnsupportedChild)
        } else {
            match child.name {
                None => Err(StructuralError::MissingName),
                Some(name) => Ok(
                    ResolverState { generics: state.generics.push(plain_type(name)), ..state },
                ),
            }
        },
        EntityKind::ObjCProtocolRef => match child.name {
            None => Err(StructuralError::MissingName),
            Some(name) => Ok(ResolverState { protocols: state.protocols.push(name), ..state }),
        },
        EntityKind::TypeRef => match child.name {
            None => Err(StructuralError::MissingName),
            Some(name) => match state.superclass {
                Some(Some(parent)) => Ok(
                    ResolverState {
                        superclass: Some(
                            Some(
                                GenericTypeView {
                                    name: parent.name,
                                    generics: parent.generics.push(plain_type(name)),
                                },
                            ),
                        ),
                        ..state
                    },
                ),
                _ => Err(StructuralError::UnsupportedChild),
            },
        },
        EntityKind::ObjCInstanceMethodDecl | EntityKind::ObjCClassMethodDecl => resolve_method(
            state,
            child,
            data,
        ),
        EntityKind::ObjCPropertyDecl => resolve_property(state, child, data),
        _ => Err(StructuralError::UnknownChild),
    }
}

/// The step of the resolver's walk.
pub open spec fn resolve_step(
    want_superclass: bool,
    want_generics: bool,
    data: Option<ClassDataView>,
) -> spec_fn(ResolverState, EntityView) -> Result<ResolverState, StructuralError> {
    |state: ResolverState, child: EntityView|
        resolve_child(state, child, want_superclass, want_generics, data)
}

/// The state in which the walk starts.
pub open spec fn resolve_start() -> ResolverState {
    ResolverState {
        superclass: None,
        generics: Seq::empty(),
        protocols: Seq::empty(),
        members: Seq::empty(),
        pending: Set::empty(),
    }
}

/// The state after the walk over all of `children`.
pub open spec fn resolve_walk(
    children: Seq<EntityView>,
    want_superclass: bool,
    want_generics: bool,
    data: Option<ClassDataView>,
) -> Result<ResolverState, StructuralError> {
    walk(children, resolve_step(want_superclass, want_generics, data), resolve_start(), 0)
}

/// What the resolver hands back.
#[derive(Debug)]
pub struct ObjCDecl {
    /// `None` where no superclass was found; `Some(None)` for a root
    /// class; `Some(Some(..))` for a parent.
    pub superclass: Option<Option<GenericType>>,
    pub generics: Vec<GenericType>,
    pub protocols: Vec<String>,
    pub methods: Vec<MethodOrProperty>,
}

/// The mathematical value of an [`ObjCDecl`].
pub struct ObjCDeclView {
    pub superclass: Option<Option<GenericTypeView>>,
    pub generics: Seq<GenericTypeView>,
    pub protocols: Seq<Seq<char>>,
    pub methods: Seq<MemberView>,
}

impl View for ObjCDecl {
    type V = ObjCDeclView;

    open spec fn view(&self) -> ObjCDeclView {
        ObjCDeclView {
            superclass: self.superclass.deep_view(),
            generics: self.generics.deep_view(),
            protocols: self.protocols.deep_view(),
            methods: self.methods.deep_view(),
        }
    }
}

impl DeepView for ObjCDecl {
    type V = ObjCDeclView;

    open spec fn deep_view(&self) -> ObjCDeclView {
        self.view()
    }
}

/// What the children of a class, category or protocol declare. After the
/// walk no accessor may be pending, but for the one that is tolerated.
pub open spec fn resolve(
    children: Seq<EntityView>,
    want_superclass: bool,
    want_generics: bool,
    data: Option<ClassDataView>,
) -> Result<ObjCDeclView, StructuralError> {
    match resolve_walk(children, want_superclass, want_generics, data) {
        Err(e) => Err(e),
        Ok(state) => if state.pending == Set::<(bool, Seq<char>)>::empty() || state.pending
            == tolerated_pending() {
            Ok(
                ObjCDeclView {
                    superclass: state.superclass,
                    generics: state.generics,
                    protocols: state.protocols,
                    methods: state.members,
                },
            )
        } else {
            Err(StructuralError::UnmatchedProperties)
        },
    }
}

fn method_override(data: Option<&ClassData>, selector: &str) -> (r: ItemData)
    ensures
        r == method_data(data.deep_view(), selector@),
{
    match data {
        Some(data) => match lookup(&data.methods, selector) {
            Some(found) => *found,
            None => ItemData { skipped: false },
        },
        None => ItemData { skipped: false },
    }
}

fn property_override(data: Option<&ClassData>, name: &str) -> (r: ItemData)
    ensures
        r == property_data(data.deep_view(), name@),
{
    match data {
        Some(data) => match lookup(&data.properties, name) {
            Some(found) => *found,
            None => ItemData { skipped: false },
        },
        None => ItemData { skipped: false },
    }
}

/// Walks the children of a class, category or protocol once and hands back
/// what they declare. `want_superclass` and `want_generics` say which slots
/// the declaration has; `data` is what is configured for the class or
/// protocol.
pub fn parse_objc_decl(
    entity: &Entity,
    want_superclass: bool,
    want_generics: bool,
    data: Option<&ClassData>,
) -> (r: Result<ObjCDecl, StructuralError>)
    ensures
        result_view(r) == resolve(
            entity@.children,
            want_superclass,
            want_generics,
            data.deep_view(),
        ),
{
    let mut superclass: Option<Option<GenericType>> = None;
    let mut generics: Vec<GenericType> = Vec::new();
    let mut protocols: Vec<String> = Vec::new();
    let mut methods: Vec<MethodOrProperty> = Vec::new();
    let mut pending = SelectorSet::new();
    let ghost step = resolve_step(want_superclass, want_generics, data.deep_view());
    let ghost children = entity@.children;
    let ghost total = resolve_walk(children, want_superclass, want_generics, data.deep_view());
    let mut i: usize = 0;
    proof {
        assert(generics.deep_view() =~= Seq::empty());
        assert(protocols.deep_view() =~= Seq::empty());
        assert(methods.deep_view() =~= Seq::empty());
    }
    while i < entity.children.len()
        invariant
            i <= entity.children.len(),
            children == entity@.children,
            step == resolve_step(want_superclass, want_generics, data.deep_view()),
            pending.wf(),
            total == resolve_walk(children, want_superclass, want_generics, data.deep_view()),
            total == walk(
                children,
                step,
                ResolverState {
                    superclass: superclass.deep_view(),
                    generics: generics.deep_view(),
                    protocols: protocols.deep_view(),
                    members: methods.deep_view(),
                    pending: pending@,
                },
                i as int,
            ),
        decreases entity.children.len() - i,
    {
        let child = &entity.children[i];
        let ghost state = ResolverState {
            superclass: superclass.deep_view(),
            generics: generics.deep_view(),
            protocols: protocols.deep_view(),
            members: methods.deep_view(),
            pending: pending@,
        };
        proof {
            assert(children[i as int] == child@);
            assert(step(state, child@) == resolve_child(
                state,
                child@,
                want_superclass,
                want_generics,
                data.deep_view(),
            ));
        }
        match child.kind {
            EntityKind::ObjCExplicitProtocolImpl => {
                if want_generics || want_superclass {
                    return Err(StructuralError::UnknownChild);
                }
            },
            EntityKind::ObjCIvarDecl | EntityKind::ObjCException => {
                if !want_superclass {
                    return Err(StructuralError::UnknownChild);
                }
            },
            EntityKind::ObjCClassRef => {
                if !want_generics {
                    return Err(StructuralError::UnknownChild);
                }
            },
            EntityKind::VisibilityAttr | EntityKind::UnexposedAttr => {},
            EntityKind::ObjCSuperClassRef => {
                if !want_superclass {
                    return Err(StructuralError::UnsupportedChild);
                }
                match &child.name {
                    None => {
                        return Err(StructuralError::MissingName);
                    },
                    Some(name) => {
                        superclass = Some(Some(GenericType::new(name.clone())));
                    },
                }
            },
            EntityKind::ObjCRootClass => {
                if !want_superclass {
                    return Err(StructuralError::UnsupportedChild);
                }
                superclass = Some(None);
            },
            EntityKind::TemplateTypeParameter => {
                if !want_generics {
                    return Err(StructuralError::UnsupportedChild);
                }
                match &child.name {
                    None => {
                        return Err(StructuralError::MissingName);
                    },
                    Some(name) => {
                        generics.push(GenericType::new(name.clone()));
                        assert(generics.deep_view() =~= state.generics.push(plain_type(name@)));
                    },
                }
            },
            EntityKind::ObjCProtocolRef => {
                match &child.name {
                    None => {
                        return Err(StructuralError::MissingName);
                    },
                    Some(name) => {
                        protocols.push(name.clone());
                        assert(protocols.deep_view() =~= state.protocols.push(name@));
                    },
                }
            },
            EntityKind::TypeRef => {
                match &child.name {
                    None => {
                        return Err(StructuralError::MissingName);
                    },
                    Some(name) => {
                        match superclass {
                            Some(Some(parent)) => {
                                let ghost before = parent@;
                                let GenericType { name: parent_name, generics: mut arguments } =
                                    parent;
                                arguments.push(GenericType::new(name.clone()));
                                let extended = GenericType {
                                    name: parent_name,
                                    generics: arguments,
                                };
                                assert(extended@.generics =~= before.generics.push(
                                    plain_type(name@),
                                ));
                                superclass = Some(Some(extended));
                            },
                            _ => {
                                return Err(StructuralError::UnsupportedChild);
                            },
                        }
                    },
                }
            },
            EntityKind::ObjCInstanceMethodDecl | EntityKind::ObjCClassMethodDecl => {
                match &child.name {
                    None => {
                        return Err(StructuralError::MissingName);
                    },
                    Some(selector) => {
                        let is_class = child.kind == EntityKind::ObjCClassMethodDecl;
                        if !pending.remove(is_class, selector.as_str()) {
                            assert(pending@ =~= state.pending);
                            match Method::parse(child, method_override(data, selector.as_str())) {
                                Err(e) => {
                                    return Err(e);
                                },
                                Ok(None) => {},
                                Ok(Some(method)) => {
                                    methods.push(MethodOrProperty::Method(method));
                                    assert(methods.deep_view() =~= state.members.push(
                                        MemberView::Method(method@),
                                    ));
                                },
                            }
                        }
                    },
                }
            },
            EntityKind::ObjCPropertyDecl => {
                let name = match &child.name {
                    None => {
                        return Err(StructuralError::MissingName);
                    },
                    Some(name) => name,
                };
                let getter = match &child.getter {
                    None => {
                        return Err(StructuralError::MissingName);
                    },
                    Some(getter) => getter,
                };
                if !pending.insert(child.is_class, getter.as_str()) {
                    return Err(StructuralError::DuplicateProperty);
                }
                match &child.setter {
                    Some(setter) => {
                        if !pending.insert(child.is_class, setter.as_str()) {
                            return Err(StructuralError::DuplicateProperty);
                        }
                    },
                    None => {},
                }
                match Property::parse(child, property_override(data, name.as_str())) {
                    Err(e) => {
                        return Err(e);
                    },
                    Ok(None) => {},
                    Ok(Some(property)) => {
                        methods.push(MethodOrProperty::Property(property));
                        assert(methods.deep_view() =~= state.members.push(
                            MemberView::Property(property@),
                        ));
                    },
                }
            },
            _ => {
                return Err(StructuralError::UnknownChild);
            },
        }
        i += 1;
    }
    if !pending.is_empty() && !pending.is_only(false, "setDisplayName:") {
        return Err(StructuralError::UnmatchedProperties);
    }
    Ok(ObjCDecl { superclass, generics, protocols, methods })
}

} // verus!
