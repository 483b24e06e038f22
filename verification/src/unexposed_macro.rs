//! The attribute macros that tell what kind of enumeration a declaration is.

use vstd::prelude::*;
use crate::text::str_equal;

verus! {

/// The kind that an attribute gives to an enumeration.
#[derive(Debug, Clone, Copy, PartialEq, Eq, Structural)]
pub enum UnexposedMacro {
    Enum,
    Options,
    ClosedEnum,
    ErrorEnum,
}

impl View for UnexposedMacro {
    type V = UnexposedMacro;

    open spec fn view(&self) -> UnexposedMacro {
        *self
    }
}

impl DeepView for UnexposedMacro {
    type V = UnexposedMacro;

    open spec fn deep_view(&self) -> UnexposedMacro {
        *self
    }
}

impl UnexposedMacro {
    /// The kind that the macro called `name` stands for, if it stands for
    /// one.
    pub open spec fn parse_spec(name: Seq<char>) -> Option<UnexposedMacro> {
        if name == "NS_ENUM"@ {
            Some(UnexposedMacro::Enum)
        } else if name == "NS_OPTIONS"@ {
            Some(UnexposedMacro::Options)
        } else if name == "NS_CLOSED_ENUM"@ {
            Some(UnexposedMacro::ClosedEnum)
        } else if name == "NS_ERROR_ENUM"@ {
            Some(UnexposedMacro::ErrorEnum)
        } else {
            None
        }
    }

    /// Reads the name of an attribute macro. Macros that say nothing about
    /// the kind of an enumeration give `None`.
    pub fn parse(name: &str) -> (r: Option<UnexposedMacro>)
        ensures
            r == UnexposedMacro::parse_spec(name@),
    {
        if str_equal(name, "NS_ENUM") {
            Some(UnexposedMacro::Enum)
        } else if str_equal(name, "NS_OPTIONS") {
            Some(UnexposedMacro::Options)
        } else if str_equal(name, "NS_CLOSED_ENUM") {
            Some(UnexposedMacro::ClosedEnum)
        } else if str_equal(name, "NS_ERROR_ENUM") {
            Some(UnexposedMacro::ErrorEnum)
        } else {
            None
        }
    }

    /// The macro of the generated source that declares an enumeration of
    /// this kind; `extern_enum` where there is no kind.
    pub open spec fn macro_name(kind: Option<UnexposedMacro>) -> Seq<char> {
        match kind {
            None => "extern_enum"@,
            Some(UnexposedMacro::Enum) => "ns_enum"@,
            Some(UnexposedMacro::Options) => "ns_options"@,
            Some(UnexposedMacro::ClosedEnum) => "ns_closed_enum"@,
            Some(UnexposedMacro::ErrorEnum) => "ns_error_enum"@,
        }
    }
}

} // verus!
