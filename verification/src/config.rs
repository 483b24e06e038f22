//! The override table: what is configured for a declaration, looked up by
//! the declaration's name, and which library and file provides an item.

use vstd::prelude::*;
use crate::stmt::Derives;
use crate::text::str_equal;

verus! {

/// What is configured for a declaration or member that can only be skipped.
#[derive(Debug, Clone, Copy, PartialEq, Eq, Structural)]
pub struct ItemData {
    pub skipped: bool,
}

impl View for ItemData {
    type V = ItemData;

    open spec fn view(&self) -> ItemData {
        *self
    }
}

impl DeepView for ItemData {
    type V = ItemData;

    open spec fn deep_view(&self) -> ItemData {
        *self
    }
}

/// What is configured for a class or protocol.
#[derive(Debug, Clone, PartialEq, Eq)]
pub struct ClassData {
    pub skipped: bool,
    /// The name to use for the superclass in place of the declared one.
    pub new_superclass_name: Option<String>,
    pub derives: Derives,
    /// Per method, by selector.
    pub methods: Vec<(String, ItemData)>,
    /// Per property, by name.
    pub properties: Vec<(String, ItemData)>,
}

/// The mathematical value of a [`ClassData`].
pub struct ClassDataView {
    pub skipped: bool,
    pub new_superclass_name: Option<Seq<char>>,
    pub derives: Seq<char>,
    pub methods: Seq<(Seq<char>, ItemData)>,
    pub properties: Seq<(Seq<char>, ItemData)>,
}

impl View for ClassData {
    type V = ClassDataView;

    open spec fn view(&self) -> ClassDataView {
        ClassDataView {
            skipped: self.skipped,
            new_superclass_name: self.new_superclass_name.deep_view(),
            derives: self.derives@,
            methods: self.methods.deep_view(),
            properties: self.properties.deep_view(),
        }
    }
}

impl DeepView for ClassData {
    type V = ClassDataView;

    open spec fn deep_view(&self) -> ClassDataView {
        self.view()
    }
}

/// What is configured for an enumeration.
#[derive(Debug, Clone, PartialEq, Eq)]
pub struct EnumData {
    pub skipped: bool,
    /// Whether constants are written as their raw values.
    pub use_value: bool,
    /// Per constant, by name.
    pub constants: Vec<(String, ItemData)>,
}

/// The mathematical value of an [`EnumData`].
pub struct EnumDataView {
    pub skipped: bool,
    pub use_value: bool,
    pub constants: Seq<(Seq<char>, ItemData)>,
}

impl View for EnumData {
    type V = EnumDataView;

    open spec fn view(&self) -> EnumDataView {
        EnumDataView {
            skipped: self.skipped,
            use_value: self.use_value,
            constants: self.constants.deep_view(),
        }
    }
}

impl DeepView for EnumData {
    type V = EnumDataView;

    open spec fn deep_view(&self) -> EnumDataView {
        self.view()
    }
}

/// A library that declarations come from.
#[derive(Debug, Clone, PartialEq, Eq)]
pub struct LibraryData {
    /// The crate that holds the library's generated source.
    pub krate: String,
    /// The crates that the library's crate always depends on.
    pub required_dependencies: Vec<String>,
}

/// The mathematical value of a [`LibraryData`].
pub struct LibraryDataView {
    pub krate: Seq<char>,
    pub required_dependencies: Seq<Seq<char>>,
}

impl View for LibraryData {
    type V = LibraryDataView;

    open spec fn view(&self) -> LibraryDataView {
        LibraryDataView {
            krate: self.krate@,
            required_dependencies: self.required_dependencies.deep_view(),
        }
    }
}

impl DeepView for LibraryData {
    type V = LibraryDataView;

    open spec fn deep_view(&self) -> LibraryDataView {
        self.view()
    }
}

/// Where an item is provided: its library, and the file within it.
#[derive(Debug, Clone, PartialEq, Eq)]
pub struct Location {
    pub library: String,
    pub file_name: String,
}

/// The mathematical value of a [`Location`].
pub struct LocationView {
    pub library: Seq<char>,
    pub file_name: Seq<char>,
}

impl View for Location {
    type V = LocationView;

    open spec fn view(&self) -> LocationView {
        LocationView { library: self.library@, file_name: self.file_name@ }
    }
}

impl DeepView for Location {
    type V = LocationView;

    open spec fn deep_view(&self) -> LocationView {
        self.view()
    }
}

/// The override table. Each of its tables maps a name to what is configured
/// for it; where a name stands twice, the first entry counts.
#[derive(Debug, Clone, PartialEq, Eq)]
pub struct Config {
    pub class_data: Vec<(String, ClassData)>,
    pub protocol_data: Vec<(String, ClassData)>,
    pub struct_data: Vec<(String, ItemData)>,
    pub enum_data: Vec<(String, EnumData)>,
    pub statics: Vec<(String, ItemData)>,
    pub fns: Vec<(String, ItemData)>,
    pub typedef_data: Vec<(String, ItemData)>,
    /// Libraries, by name.
    pub libraries: Vec<(String, LibraryData)>,
    /// Where each item is provided, by the item's name.
    pub items: Vec<(String, Location)>,
}

/// The mathematical value of a [`Config`].
pub struct ConfigView {
    pub class_data: Seq<(Seq<char>, ClassDataView)>,
    pub protocol_data: Seq<(Seq<char>, ClassDataView)>,
    pub struct_data: Seq<(Seq<char>, ItemData)>,
    pub enum_data: Seq<(Seq<char>, EnumDataView)>,
    pub statics: Seq<(Seq<char>, ItemData)>,
    pub fns: Seq<(Seq<char>, ItemData)>,
    pub typedef_data: Seq<(Seq<char>, ItemData)>,
    pub libraries: Seq<(Seq<char>, LibraryDataView)>,
    pub items: Seq<(Seq<char>, LocationView)>,
}

impl View for Config {
    type V = ConfigView;

    open spec fn view(&self) -> ConfigView {
        ConfigView {
            class_data: self.class_data.deep_view(),
            protocol_data: self.protocol_data.deep_view(),
            struct_data: self.struct_data.deep_view(),
            enum_data: self.enum_data.deep_view(),
            statics: self.statics.deep_view(),
            fns: self.fns.deep_view(),
            typedef_data: self.typedef_data.deep_view(),
            libraries: self.libraries.deep_view(),
            items: self.items.deep_view(),
        }
    }
}

impl DeepView for Config {
    type V = ConfigView;

    open spec fn deep_view(&self) -> ConfigView {
        self.view()
    }
}

/// What `entries` holds for `key`: the value of the first entry with that
/// key.
pub open spec fn lookup_spec<V>(entries: Seq<(Seq<char>, V)>, key: Seq<char>) -> Option<V>
    decreases entries.len(),
{
    if entries.len() == 0 {
        None
    } else if entries[0].0 == key {
        Some(entries[0].1)
    } else {
        lookup_spec(entries.drop_first(), key)
    }
}

/// Whether `entries` marks `key` as skipped; a name without an entry is not
/// skipped.
pub open spec fn skipped_spec(entries: Seq<(Seq<char>, ItemData)>, key: Seq<char>) -> bool {
    match lookup_spec(entries, key) {
        Some(data) => data.skipped,
        None => false,
    }
}

/// Whether `names` holds `name`.
pub open spec fn has_name(names: Seq<Seq<char>>, name: Seq<char>) -> bool {
    exists|i: int| 0 <= i < names.len() && names[i] == name
}

/// Looks `key` up in `entries`.
pub fn lookup<'a, V: DeepView>(entries: &'a Vec<(String, V)>, key: &str) -> (r: Option<&'a V>)
    ensures
        r.deep_view() == lookup_spec(entries.deep_view(), key@),
{
    let mut i: usize = 0;
    proof {
        assert(entries.deep_view().skip(0) =~= entries.deep_view());
    }
    while i < entries.len()
        invariant
            i <= entries.len(),
            lookup_spec(entries.deep_view(), key@) == lookup_spec(
                entries.deep_view().skip(i as int),
                key@,
            ),
        decreases entries.len() - i,
    {
        proof {
            assert(entries.deep_view().skip(i as int).drop_first() =~= entries.deep_view().skip(
                i + 1,
            ));
        }
        if str_equal(entries[i].0.as_str(), key) {
            return Some(&entries[i].1);
        }
        i += 1;
    }
    None
}

/// Whether `entries` marks `key` as skipped.
pub fn is_skipped(entries: &Vec<(String, ItemData)>, key: &str) -> (r: bool)
    ensures
        r == skipped_spec(entries.deep_view(), key@),
{
    match lookup(entries, key) {
        Some(data) => data.skipped,
        None => false,
    }
}

/// Whether `names` holds `name`.
pub fn contains_name(names: &Vec<String>, name: &str) -> (r: bool)
    ensures
        r == has_name(names.deep_view(), name@),
{
    let mut i: usize = 0;
    while i < names.len()
        invariant
            i <= names.len(),
            forall|j: int| 0 <= j < i ==> names.deep_view()[j] != name@,
        decreases names.len() - i,
    {
        if str_equal(names[i].as_str(), name) {
            assert(names.deep_view()[i as int] == name@);
            return true;
        }
        i += 1;
    }
    false
}

impl ConfigView {
    /// Where the item called `name` is provided, if the table knows.
    pub open spec fn location(self, name: Seq<char>) -> Option<LocationView> {
        lookup_spec(self.items, name)
    }

    /// The crate that holds the generated source of `library`, if the table
    /// knows the library.
    pub open spec fn krate(self, library: Seq<char>) -> Option<Seq<char>> {
        match lookup_spec(self.libraries, library) {
            Some(data) => Some(data.krate),
            None => None,
        }
    }

    /// The crates that the crate of `library` always depends on; none where
    /// the table does not know the library.
    pub open spec fn required_dependencies(self, library: Seq<char>) -> Seq<Seq<char>> {
        match lookup_spec(self.libraries, library) {
            Some(data) => data.required_dependencies,
            None => Seq::empty(),
        }
    }
}

impl Config {
    /// A table without entries.
    pub fn new() -> (r: Config)
        ensures
            r@ == ConfigView::empty(),
    {
        let r = Config {
            class_data: Vec::new(),
            protocol_data: Vec::new(),
            struct_data: Vec::new(),
            enum_data: Vec::new(),
            statics: Vec::new(),
            fns: Vec::new(),
            typedef_data: Vec::new(),
            libraries: Vec::new(),
            items: Vec::new(),
        };
        assert(r@.class_data =~= Seq::empty());
        assert(r@.protocol_data =~= Seq::empty());
        assert(r@.struct_data =~= Seq::empty());
        assert(r@.enum_data =~= Seq::empty());
        assert(r@.statics =~= Seq::empty());
        assert(r@.fns =~= Seq::empty());
        assert(r@.typedef_data =~= Seq::empty());
        assert(r@.libraries =~= Seq::empty());
        assert(r@.items =~= Seq::empty());
        r
    }

    /// Where the item called `name` is provided, if the table knows.
    pub fn location(&self, name: &str) -> (r: Option<&Location>)
        ensures
            r.deep_view() == self@.location(name@),
    {
        lookup(&self.items, name)
    }

    /// The crate of `library`, if the table knows the library.
    pub fn krate(&self, library: &str) -> (r: Option<&String>)
        ensures
            r.deep_view() == self@.krate(library@),
    {
        match lookup(&self.libraries, library) {
            Some(data) => Some(&data.krate),
            None => None,
        }
    }

    /// The crates that the crate of `library` always depends on, if the
    /// table knows the library.
    pub fn required_of(&self, library: &str) -> (r: Option<&Vec<String>>)
        ensures
            match r {
                Some(required) => required.deep_view() == self@.required_dependencies(library@),
                None => self@.required_dependencies(library@) == Seq::<Seq<char>>::empty(),
            },
    {
        match lookup(&self.libraries, library) {
            Some(data) => Some(&data.required_dependencies),
            None => None,
        }
    }

    /// Whether `krate` is one of the crates that the crate of `library`
    /// always depends on.
    pub fn is_required_dependency(&self, library: &str, krate: &str) -> (r: bool)
        ensures
            r == has_name(self@.required_dependencies(library@), krate@),
    {
        match lookup(&self.libraries, library) {
            Some(data) => contains_name(&data.required_dependencies, krate),
            None => false,
        }
    }
}

impl ConfigView {
    /// The table without entries.
    pub open spec fn empty() -> ConfigView {
        ConfigView {
            class_data: Seq::empty(),
            protocol_data: Seq::empty(),
            struct_data: Seq::empty(),
            enum_data: Seq::empty(),
            statics: Seq::empty(),
            fns: Seq::empty(),
            typedef_data: Seq::empty(),
            libraries: Seq::empty(),
            items: Seq::empty(),
        }
    }
}

} // verus!
