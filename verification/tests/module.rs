use header_translator::availability::Availability;
use header_translator::config::{Config, LibraryData, Location};
use header_translator::emit::reexport_features;
use header_translator::entity::TypeKind;
use header_translator::method::Method;
use header_translator::module::{clean_name, item_feature, item_import, Module};
use header_translator::names::insert_name;
use header_translator::output::{stale, OutputAction};
use header_translator::rust_type::{GenericType, Ty, TyMode};
use header_translator::stmt::{Derives, MethodOrProperty, Stmt};
use header_translator::text::{replace_char, str_equal, str_less};

fn ty(mode: TyMode, name: &str) -> Ty {
    Ty { mode, kind: TypeKind::Other, name: name.to_string() }
}

fn config() -> Config {
    let mut config = Config::new();
    for (library, krate, required) in [
        ("AppKit", "objc2-app-kit", vec!["objc2-foundation"]),
        ("Foundation", "objc2-foundation", vec![]),
        ("CoreData", "objc2-core-data", vec![]),
    ] {
        config.libraries.push((
            library.to_string(),
            LibraryData {
                krate: krate.to_string(),
                required_dependencies: required.into_iter().map(|s| s.to_string()).collect(),
            },
        ));
    }
    for (item, library, file) in [
        ("NSString", "Foundation", "NSString"),
        ("NSManagedObject", "CoreData", "NSManagedObject"),
        ("NSView", "AppKit", "NSView"),
        ("NSResponder", "AppKit", "NSResponder"),
        ("NSTextExtras", "AppKit", "NSText+Extras"),
        ("Mystery", "Unknown", "Mystery"),
    ] {
        config.items.push((
            item.to_string(),
            Location { library: library.to_string(), file_name: file.to_string() },
        ));
    }
    config
}

fn alias(name: &str, of: &str) -> Stmt {
    Stmt::AliasDecl { name: name.to_string(), ty: ty(TyMode::Typedef, of) }
}

fn view_class() -> Stmt {
    Stmt::ClassDecl {
        ty: GenericType::new("NSView".to_string()),
        availability: Availability::new(),
        superclass: Some(GenericType::new("NSResponder".to_string())),
        protocols: vec![],
        methods: vec![MethodOrProperty::Method(Method {
            selector: "fetch:".to_string(),
            is_class: false,
            arguments: vec![("object".to_string(), ty(TyMode::MethodArgument, "NSManagedObject"))],
            result_type: ty(TyMode::MethodReturn, "NSString"),
            availability: Availability::new(),
            is_error: false,
        })],
        derives: Derives::default(),
    }
}

fn names(module: &Module) -> Vec<&str> {
    module.submodules.iter().map(|(name, _)| name.as_str()).collect()
}

#[test]
fn file_names_become_module_names() {
    assert_eq!(clean_name("NSText+Extras"), "NSText_Extras");
    assert_eq!(clean_name("++a+"), "__a_");
    assert_eq!(clean_name("plain"), "plain");
    assert_eq!(clean_name(""), "");
    assert_eq!(clean_name("é+ü"), "é_ü");
    assert_eq!(replace_char("objc2-core-data", '-', '_'), "objc2_core_data");
}

#[test]
fn names_are_ordered_by_their_bytes() {
    assert!(str_less("", "a"));
    assert!(!str_less("a", ""));
    assert!(!str_less("a", "a"));
    assert!(str_less("a", "ab"));
    assert!(str_less("Z", "a"));
    assert!(str_less("ab", "b"));
    assert!(str_less("z", "é"));
    assert!(str_equal("é", "é"));
    assert!(!str_equal("e", "é"));
    assert!(!str_equal("a", "ab"));

    let mut sorted: Vec<String> = Vec::new();
    for name in ["pear", "apple", "fig", "apple", "Zebra", "figs", ""] {
        insert_name(&mut sorted, name.to_string());
    }
    assert_eq!(sorted, vec!["", "Zebra", "apple", "fig", "figs", "pear"]);
}

#[test]
fn statements_are_kept_in_the_order_they_are_added() {
    let mut module = Module::new();
    assert!(module.stmts.is_empty());
    assert!(module.submodules.is_empty());
    module.add_stmt(alias("B", "u8"));
    module.add_stmt(alias("A", "u8"));
    assert_eq!(module.stmts, vec![alias("B", "u8"), alias("A", "u8")]);
}

#[test]
fn modules_below_are_kept_in_ascending_order() {
    let mut module = Module::default();
    module.add_submodule_stmt("NSView", alias("A", "u8"));
    module.add_submodule("Sub".to_string(), Module::new());
    module.add_submodule_stmt("NSText+Extras", alias("B", "u8"));
    module.add_submodule_stmt("NSView", alias("C", "u8"));
    assert_eq!(names(&module), vec!["NSText+Extras", "NSView", "Sub"]);
    assert_eq!(module.submodules[1].1.stmts, vec![alias("A", "u8"), alias("C", "u8")]);

    // a module put under a name that is taken replaces what was there
    let mut other = Module::new();
    other.add_stmt(alias("D", "u8"));
    module.add_submodule("NSView".to_string(), other);
    assert_eq!(names(&module), vec!["NSText+Extras", "NSView", "Sub"]);
    assert_eq!(module.submodules[1].1.stmts, vec![alias("D", "u8")]);
}

#[test]
fn items_ask_for_imports_and_features() {
    let config = config();
    assert_eq!(item_import(&config, "AppKit", "NSString"), Some("objc2-foundation".to_string()));
    assert_eq!(item_import(&config, "AppKit", "NSView"), None);
    assert_eq!(item_import(&config, "AppKit", "u8"), None);
    assert_eq!(item_import(&config, "AppKit", "Mystery"), None);
    assert_eq!(item_import(&config, "Foundation", "NSView"), Some("objc2-app-kit".to_string()));

    assert_eq!(item_feature(&config, "AppKit", "NSString"), None);
    assert_eq!(item_feature(&config, "AppKit", "NSManagedObject"), Some("objc2-core-data".to_string()));
    assert_eq!(item_feature(&config, "AppKit", "NSTextExtras"), Some("NSText_Extras".to_string()));
    assert_eq!(item_feature(&config, "AppKit", "u8"), None);
    assert_eq!(item_feature(&config, "AppKit", "Mystery"), None);
    assert_eq!(item_feature(&config, "CoreData", "NSString"), Some("objc2-foundation".to_string()));
}

#[test]
fn imports_are_the_crates_of_other_libraries() {
    let config = config();
    let mut module = Module::new();
    assert!(module.imports(&config, "AppKit").is_empty());
    module.add_stmt(view_class());
    module.add_stmt(alias("Text", "NSString"));
    module.add_stmt(alias("Byte", "u8"));
    assert_eq!(module.imports(&config, "AppKit"), vec!["objc2-core-data", "objc2-foundation"]);
    assert_eq!(module.imports(&config, "Foundation"), vec!["objc2-app-kit", "objc2-core-data"]);

    // what the modules below need is no import of the module itself
    let mut root = Module::new();
    root.add_submodule("NSView".to_string(), module);
    assert!(root.imports(&config, "AppKit").is_empty());
}

#[test]
fn crates_cover_the_whole_tree() {
    let config = config();
    let mut leaf = Module::new();
    leaf.add_stmt(alias("Object", "NSManagedObject"));
    let mut middle = Module::new();
    middle.add_stmt(alias("Text", "NSString"));
    middle.add_submodule("Leaf".to_string(), leaf);
    let mut root = Module::new();
    root.add_stmt(alias("View", "NSView"));
    root.add_submodule("Middle".to_string(), middle);
    root.add_submodule_stmt("Another", alias("Text", "NSString"));
    assert_eq!(root.crates(&config, "AppKit"), vec!["objc2-core-data", "objc2-foundation"]);
    assert_eq!(
        root.crates(&config, "Other"),
        vec!["objc2-app-kit", "objc2-core-data", "objc2-foundation"]
    );
    assert!(Module::new().crates(&config, "AppKit").is_empty());
}

#[test]
fn required_features_by_module() {
    let config = config();
    let mut nested = Module::new();
    nested.add_submodule_stmt("NSView", alias("Object", "NSManagedObject"));
    nested.add_submodule_stmt("Deep", alias("Text", "NSTextExtras"));
    let mut root = Module::new();
    // the module's own statements are left out
    root.add_stmt(alias("Object", "NSManagedObject"));
    root.add_submodule_stmt("NSView", view_class());
    root.add_submodule_stmt("NSText+Extras", alias("Text", "NSString"));
    root.add_submodule_stmt("NSText_Extras", alias("View", "NSView"));
    root.add_submodule("Z".to_string(), nested);

    let features = root.required_cargo_features(&config, "AppKit");
    let expected: Vec<(String, Vec<String>)> = vec![
        ("Deep".to_string(), vec!["NSText_Extras".to_string()]),
        // the entry of the module below `Z` takes the place of the earlier one
        ("NSText_Extras".to_string(), vec!["NSView".to_string()]),
        ("NSView".to_string(), vec!["objc2-core-data".to_string()]),
        ("Z".to_string(), vec![]),
    ];
    assert_eq!(features, expected);
    assert!(Module::new().required_cargo_features(&config, "AppKit").is_empty());
}

#[test]
fn two_files_with_one_module_name_share_an_entry() {
    let config = config();
    let mut root = Module::new();
    root.add_submodule_stmt("A+B", alias("Object", "NSManagedObject"));
    root.add_submodule_stmt("A_B", alias("View", "NSView"));
    let expected: Vec<(String, Vec<String>)> =
        vec![("A_B".to_string(), vec!["NSView".to_string(), "objc2-core-data".to_string()])];
    assert_eq!(root.required_cargo_features(&config, "AppKit"), expected);
}

#[test]
fn file_of_a_module_without_modules_below() {
    let config = config();
    let mut module = Module::new();
    module.add_stmt(alias("Text", "NSString"));
    module.add_stmt(alias("Object", "NSManagedObject"));
    let stmts = "use objc2::__framework_prelude::*;\n\
                 #[cfg(feature = \"objc2-core-data\")]\nuse objc2_core_data::*;\n\
                 use objc2_foundation::*;\n\
                 \nuse crate::*;\n\n\
                 pub type Text = NSString;\n\n\
                 pub type Object = NSManagedObject;\n\n";
    assert_eq!(module.stmts(&config, "AppKit"), stmts);
    let banner = "//! This file has been automatically ".to_string()
        + "generated by `objc2`'s `header-translator`.\n//! DO NOT EDIT\n";
    assert_eq!(module.contents(&config, "AppKit"), banner.clone() + stmts);

    // the crates that are always depended on are imported in any case
    let empty = "use objc2::__framework_prelude::*;\nuse objc2_foundation::*;\n\nuse crate::*;\n\n";
    assert_eq!(Module::new().contents(&config, "AppKit"), banner.clone() + empty);
    // a library that the table does not know depends on nothing
    let bare = "use objc2::__framework_prelude::*;\n\nuse crate::*;\n\n";
    assert_eq!(Module::new().contents(&config, "Nowhere"), banner + bare);
}

fn tree() -> Module {
    let mut sub = Module::new();
    sub.add_submodule_stmt("Inner", alias("Deep", "u8"));
    sub.add_stmt(alias("Shallow", "u8"));
    let mut root = Module::new();
    root.add_submodule("Sub".to_string(), sub);
    root.add_submodule_stmt("NSView", view_class());
    root.add_submodule_stmt("NSView", Stmt::CategoryDecl {
        class_ty: GenericType::new("NSView".to_string()),
        availability: Availability::new(),
        name: None,
        protocols: vec![],
        methods: vec![],
    });
    root.add_submodule_stmt("NSText+Extras", alias("_Private", "NSString"));
    root
}

#[test]
fn file_of_a_module_with_modules_below() {
    let config = config();
    let root = tree();
    let modules = "#[cfg(feature = \"NSText_Extras\")]#[path = \"NSText_Extras.rs\"]\nmod __NSText_Extras;\n\
                   #[cfg(feature = \"NSView\")]#[path = \"NSView.rs\"]\nmod __NSView;\n\
                   #[cfg(feature = \"Sub\")]mod Sub;\n\
                   \n\
                   #[cfg(feature = \"NSText_Extras\")]\n\
                   pub(crate) use self::__NSText_Extras::{_Private};\
                   #[cfg(all(feature = \"NSResponder\", feature = \"NSView\", feature = \"objc2-core-data\"))]\n\
                   pub use self::__NSView::{NSView};\
                   #[cfg(feature = \"Sub\")]\n\
                   pub use self::__Sub::{Shallow};";
    assert_eq!(root.modules(&config, "AppKit"), modules);
    let banner = "//! This file has been automatically ".to_string()
        + "generated by `objc2`'s `header-translator`.\n//! DO NOT EDIT\n";
    // no statements of its own: the file ends with the part about the modules below
    assert_eq!(root.contents(&config, "AppKit"), banner.clone() + modules);

    let mut with_own = tree();
    with_own.add_stmt(alias("Byte", "u8"));
    assert_eq!(
        with_own.contents(&config, "AppKit"),
        banner + modules + &with_own.stmts(&config, "AppKit")
    );
}

#[test]
fn handed_on_items_stand_behind_what_they_need() {
    let config = config();
    assert_eq!(
        reexport_features(&view_class(), "NSView", &config, "AppKit"),
        vec!["NSResponder", "NSView", "objc2-core-data"]
    );
    // what is always depended on asks for nothing: only the file's own feature is left
    assert_eq!(
        reexport_features(&alias("Text", "NSString"), "NSText+Extras", &config, "AppKit"),
        vec!["NSText_Extras"]
    );
    assert_eq!(
        reexport_features(&alias("Text", "NSString"), "File", &config, "CoreData"),
        vec!["File", "objc2-foundation"]
    );
}

fn path(components: &[&str]) -> Vec<String> {
    components.iter().map(|s| s.to_string()).collect()
}

#[test]
fn a_single_module_is_a_single_file() {
    let config = config();
    let mut module = Module::new();
    module.add_stmt(alias("Byte", "u8"));
    let contents = module.contents(&config, "AppKit");
    assert_eq!(
        module.output(&path(&["out", "AppKit"]), &config, "AppKit"),
        vec![OutputAction::WriteFile { path: path(&["out", "AppKit.rs"]), contents: contents.clone() }]
    );
    assert_eq!(
        module.output(&path(&[]), &config, "AppKit"),
        vec![OutputAction::WriteFile { path: path(&[]), contents }]
    );
}

#[test]
fn trees_of_the_same_value_are_equal() {
    assert_eq!(tree(), tree());
    let mut other = tree();
    other.add_submodule_stmt("NSView", alias("More", "u8"));
    assert_ne!(tree(), other);
    assert_eq!(Module::new(), Module::default());
}

#[test]
fn a_dot_in_a_name_stays_in_the_file_name() {
    let config = config();
    let mut leaf = Module::new();
    leaf.add_stmt(alias("Byte", "u8"));
    let contents = leaf.contents(&config, "AppKit");
    // `.rs` is added to the last component; nothing of it is replaced
    assert_eq!(
        leaf.output(&path(&["out", "a.b"]), &config, "AppKit"),
        vec![OutputAction::WriteFile { path: path(&["out", "a.b.rs"]), contents: contents.clone() }]
    );

    // the file that is written is the entry that is expected
    let mut root = Module::new();
    root.add_submodule_stmt("a.b", alias("Byte", "u8"));
    assert_eq!(root.expected_files(), path(&["a.b.rs", "mod.rs"]));
    let plan = root.output(&path(&["out"]), &config, "AppKit");
    assert_eq!(plan[1], OutputAction::WriteFile { path: path(&["out", "a.b.rs"]), contents });
    assert!(stale(&path(&["a.b.rs", "mod.rs"]), &root.expected_files()).is_empty());
    assert_eq!(stale(&path(&["a.rs", "a.b.rs"]), &root.expected_files()), path(&["a.rs"]));
}

#[test]
fn emitting_twice_gives_the_same_files() {
    let config = config();
    let root = tree();
    let base = path(&["generated"]);
    let first = root.output(&base, &config, "AppKit");
    let second = tree().output(&base, &config, "AppKit");
    assert_eq!(first, second);

    let sub = &root.submodules[2].1;
    let expected = vec![
        OutputAction::CreateDir { path: path(&["generated"]) },
        OutputAction::WriteFile {
            path: path(&["generated", "NSText_Extras.rs"]),
            contents: root.submodules[0].1.contents(&config, "AppKit"),
        },
        OutputAction::WriteFile {
            path: path(&["generated", "NSView.rs"]),
            contents: root.submodules[1].1.contents(&config, "AppKit"),
        },
        OutputAction::CreateDir { path: path(&["generated", "Sub"]) },
        OutputAction::WriteFile {
            path: path(&["generated", "Sub", "Inner.rs"]),
            contents: sub.submodules[0].1.contents(&config, "AppKit"),
        },
        OutputAction::WriteFile {
            path: path(&["generated", "Sub", "mod.rs"]),
            contents: sub.contents(&config, "AppKit"),
        },
        OutputAction::Prune {
            path: path(&["generated", "Sub"]),
            expected: path(&["Inner.rs", "mod.rs"]),
        },
        OutputAction::WriteFile {
            path: path(&["generated", "mod.rs"]),
            contents: root.contents(&config, "AppKit"),
        },
        OutputAction::Prune {
            path: path(&["generated"]),
            expected: path(&["NSText_Extras.rs", "NSView.rs", "Sub", "mod.rs"]),
        },
    ];
    assert_eq!(first, expected);
    assert_eq!(root.expected_files(), path(&["NSText_Extras.rs", "NSView.rs", "Sub", "mod.rs"]));

    // after the first run the directory holds what is expected: nothing is stale
    assert!(stale(&root.expected_files(), &root.expected_files()).is_empty());
}

#[test]
fn files_of_an_earlier_run_are_pruned() {
    let expected = path(&["NSView.rs", "Sub", "mod.rs"]);
    let listing = path(&["Z.rs", "mod.rs", "NSView.rs", "Old", "Sub", "Z.rs"]);
    assert_eq!(stale(&listing, &expected), path(&["Z.rs", "Old", "Z.rs"]));
    assert!(stale(&path(&[]), &expected).is_empty());
    assert_eq!(stale(&listing, &path(&[])), listing);
}
