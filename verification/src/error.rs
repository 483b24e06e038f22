//! The structural inconsistencies that end a run.

use vstd::prelude::*;

verus! {

/// A shape of the input that classification does not understand. Each one
/// is fatal: no statement is made of the declaration it was found in.
#[derive(Debug, Clone, Copy, PartialEq, Eq, Structural)]
pub enum StructuralError {
    /// The entity is of a kind that is no top-level declaration.
    UnknownEntity,
    /// A child is of a kind that its parent cannot have.
    UnknownChild,
    /// A child that is recognized, but has no place in this declaration: a
    /// superclass, root class marker, generic parameter or type reference
    /// for which no slot was asked.
    UnsupportedChild,
    /// A declaration or member that needs a name has none.
    MissingName,
    /// A declaration or member that needs a type has none.
    MissingType,
    /// A declaration that needs availability metadata has none.
    MissingAvailability,
    /// An enumeration constant has no value.
    MissingValue,
    /// A class ended up with neither a parent nor the root marker.
    MissingSuperclass,
    /// A category names no class, or more than one.
    CategoryClass,
    /// An accessor selector was registered twice.
    DuplicateProperty,
    /// An accessor selector was registered and no method took it up.
    UnmatchedProperties,
    /// Two attributes give an enumeration different kinds.
    DifferingEnumKinds,
    /// An attribute that gives a kind stands where none is expected.
    UnexpectedAttribute,
    /// A variable has more than one initializer.
    DuplicateValue,
    /// A global function is marked as a static method.
    StaticMethod,
}

/// The value of an outcome: the value of what was made, or the error.
pub open spec fn result_view<T: DeepView>(r: Result<T, StructuralError>) -> Result<
    T::V,
    StructuralError,
> {
    match r {
        Ok(v) => Ok(v.deep_view()),
        Err(e) => Err(e),
    }
}

impl StructuralError {
    /// A sentence that names the inconsistency.
    pub fn message(&self) -> (r: String)
        ensures
            r@ == self.message_spec(),
    {
        match self {
            StructuralError::UnknownEntity => String::from_str("unknown entity"),
            StructuralError::UnknownChild => String::from_str("unknown child"),
            StructuralError::UnsupportedChild => String::from_str("unsupported child"),
            StructuralError::MissingName => String::from_str("missing name"),
            StructuralError::MissingType => String::from_str("missing type"),
            StructuralError::MissingAvailability => String::from_str("missing availability"),
            StructuralError::MissingValue => String::from_str("missing enum constant value"),
            StructuralError::MissingSuperclass => String::from_str("no superclass found"),
            StructuralError::CategoryClass => String::from_str(
                "could not find unique category class",
            ),
            StructuralError::DuplicateProperty => String::from_str("already existing property"),
            StructuralError::UnmatchedProperties => String::from_str(
                "did not properly add methods to properties",
            ),
            StructuralError::DifferingEnumKinds => String::from_str("got differing enum kinds"),
            StructuralError::UnexpectedAttribute => String::from_str("unexpected attribute"),
            StructuralError::DuplicateValue => String::from_str("got variable value twice"),
            StructuralError::StaticMethod => String::from_str("unexpected static method"),
        }
    }

    /// The sentence for each inconsistency.
    pub open spec fn message_spec(&self) -> Seq<char> {
        match self {
            StructuralError::UnknownEntity => "unknown entity"@,
            StructuralError::UnknownChild => "unknown child"@,
            StructuralError::UnsupportedChild => "unsupported child"@,
            StructuralError::MissingName => "missing name"@,
            StructuralError::MissingType => "missing type"@,
            StructuralError::MissingAvailability => "missing availability"@,
            StructuralError::MissingValue => "missing enum constant value"@,
            StructuralError::MissingSuperclass => "no superclass found"@,
            StructuralError::CategoryClass => "could not find unique category class"@,
            StructuralError::DuplicateProperty => "already existing property"@,
            StructuralError::UnmatchedProperties => "did not properly add methods to properties"@,
            StructuralError::DifferingEnumKinds => "got differing enum kinds"@,
            StructuralError::UnexpectedAttribute => "unexpected attribute"@,
            StructuralError::DuplicateValue => "got variable value twice"@,
            StructuralError::StaticMethod => "unexpected static method"@,
        }
    }
}

} // verus!
