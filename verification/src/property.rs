//! Properties of classes, categories and protocols.

use vstd::prelude::*;
use crate::config::ItemData;
use crate::entity::{Entity, EntityView, TypeKind};
use crate::error::{result_view, StructuralError};
use crate::method::{member_head, push_member_head};
use crate::rust_type::{Ty, TyMode, TyView};
use crate::text::{handle_reserved_spec, push_handle_reserved, str_equal};

verus! {

/// A declared property with the selectors of its accessors.
#[derive(Debug, Clone, PartialEq, Eq)]
pub struct Property {
    pub name: String,
    /// Whether the property belongs to the class rather than its instances.
    pub is_class: bool,
    pub getter: String,
    /// The setter's selector; absent where the property cannot be set.
    pub setter: Option<String>,
    pub ty: Ty,
}

/// The mathematical value of a [`Property`].
pub struct PropertyView {
    pub name: Seq<char>,
    pub is_class: bool,
    pub getter: Seq<char>,
    pub setter: Option<Seq<char>>,
    pub ty: TyView,
}

impl View for Property {
    type V = PropertyView;

    open spec fn view(&self) -> PropertyView {
        PropertyView {
            name: self.name@,
            is_class: self.is_class,
            getter: self.getter@,
            setter: self.setter.deep_view(),
            ty: self.ty@,
        }
    }
}

impl DeepView for Property {
    type V = PropertyView;

    open spec fn deep_view(&self) -> PropertyView {
        self.view()
    }
}

impl PropertyView {
    /// The property that `entity` declares under the override `data`; none
    /// where it is skipped.
    pub open spec fn parse(entity: EntityView, data: ItemData) -> Result<
        Option<PropertyView>,
        StructuralError,
    > {
        match (entity.name, entity.getter) {
            (Some(name), Some(getter)) => if data.skipped {
                Ok(None)
            } else {
                match entity.ty {
                    None => Err(StructuralError::MissingType),
                    Some(desc) => Ok(
                        Some(
                            PropertyView {
                                name,
                                is_class: entity.is_class,
                                getter,
                                setter: entity.setter,
                                ty: TyView::parse(desc, TyMode::Property),
                            },
                        ),
                    ),
                }
            },
            _ => Err(StructuralError::MissingName),
        }
    }

    /// The getter as generated source declares it.
    pub open spec fn getter_text(self) -> Seq<char> {
        member_head(self.getter, Seq::empty(), self.is_class) + ")"@ + (if self.ty.kind
            == TypeKind::Void {
            Seq::empty()
        } else {
            " -> "@ + self.ty.name
        }) + ";"@
    }

    /// The setter with selector `setter` as generated source declares it,
    /// on a line of its own.
    pub open spec fn setter_text(self, setter: Seq<char>) -> Seq<char> {
        "\n"@ + member_head(setter, Seq::empty(), self.is_class) + handle_reserved_spec(self.name)
            + ": "@ + self.ty.name + ",);"@
    }

    /// The property as generated source declares it: the getter, and the
    /// setter where there is one.
    pub open spec fn text(self) -> Seq<char> {
        self.getter_text() + (match self.setter {
            Some(setter) => self.setter_text(setter),
            None => Seq::empty(),
        })
    }
}

impl Property {
    /// Reads the property that `entity` declares, under the override
    /// `data`.
    pub fn parse(entity: &Entity, data: ItemData) -> (r: Result<Option<Property>, StructuralError>)
        ensures
            result_view(r) == PropertyView::parse(entity@, data),
    {
        let name = match &entity.name {
            None => {
                return Err(StructuralError::MissingName);
            },
            Some(name) => name.clone(),
        };
        let getter = match &entity.getter {
            None => {
                return Err(StructuralError::MissingName);
            },
            Some(getter) => getter.clone(),
        };
        if data.skipped {
            return Ok(None);
        }
        let ty = match &entity.ty {
            None => {
                return Err(StructuralError::MissingType);
            },
            Some(desc) => Ty::parse(desc, TyMode::Property),
        };
        let setter = match &entity.setter {
            None => None,
            Some(setter) => Some(setter.clone()),
        };
        Ok(Some(Property { name, is_class: entity.is_class, getter, setter, ty }))
    }

    /// Appends the property's declaration to `out`.
    pub fn push_text(&self, out: &mut String)
        ensures
            final(out)@ == old(out)@ + self@.text(),
    {
        proof {
            reveal_strlit("");
            assert(""@ =~= Seq::<char>::empty());
        }
        push_member_head(out, self.getter.as_str(), "", self.is_class);
        out.append(")");
        if self.ty.kind != TypeKind::Void {
            out.append(" -> ");
            out.append(self.ty.name.as_str());
        }
        out.append(";");
        assert(out@ =~= old(out)@ + self@.getter_text());
        match &self.setter {
            Some(setter) => {
                out.append("\n");
                push_member_head(out, setter.as_str(), "", self.is_class);
                push_handle_reserved(out, self.name.as_str());
                out.append(": ");
                out.append(self.ty.name.as_str());
                out.append(",);");
                assert(out@ =~= old(out)@ + self@.getter_text() + self@.setter_text(setter@));
            },
            None => {
                assert(out@ =~= old(out)@ + self@.text());
            },
        }
    }

    /// Whether the two properties have the same value.
    pub fn same(&self, other: &Property) -> (r: bool)
        ensures
            r == (self@ == other@),
    {
        let setters = match (&self.setter, &other.setter) {
            (Some(a), Some(b)) => str_equal(a.as_str(), b.as_str()),
            (None, None) => true,
            _ => false,
        };
        setters && str_equal(self.name.as_str(), other.name.as_str()) && self.is_class
            == other.is_class && str_equal(self.getter.as_str(), other.getter.as_str())
            && self.ty.same(&other.ty)
    }
}

} // verus!
