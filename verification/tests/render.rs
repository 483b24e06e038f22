use header_translator::availability::Availability;
use header_translator::entity::TypeKind;
use header_translator::expr::Expr;
use header_translator::method::Method;
use header_translator::property::Property;
use header_translator::rust_type::{GenericType, Ty, TyMode};
use header_translator::stmt::{Derives, MethodOrProperty, Mismatch, Stmt};
use header_translator::unexposed_macro::UnexposedMacro;

fn ty(mode: TyMode, name: &str) -> Ty {
    Ty { mode, kind: TypeKind::Other, name: name.to_string() }
}

fn void(mode: TyMode) -> Ty {
    Ty { mode, kind: TypeKind::Void, name: "void".to_string() }
}

fn plain(name: &str) -> GenericType {
    GenericType::new(name.to_string())
}

fn method(selector: &str, is_class: bool, arguments: Vec<(&str, &str)>, result: Ty) -> Method {
    Method {
        selector: selector.to_string(),
        is_class,
        arguments: arguments
            .into_iter()
            .map(|(name, of)| (name.to_string(), ty(TyMode::MethodArgument, of)))
            .collect(),
        result_type: result,
        availability: Availability::new(),
        is_error: false,
    }
}

fn class(ty: GenericType, superclass: Option<GenericType>, methods: Vec<MethodOrProperty>) -> Stmt {
    Stmt::ClassDecl {
        ty,
        availability: Availability::new(),
        superclass,
        protocols: vec!["NSCopying".to_string()],
        methods,
        derives: Derives::default(),
    }
}

#[test]
fn derive_attribute() {
    assert_eq!(Derives::default().render(), "#[derive(Debug, PartialEq, Eq, Hash)]");
    assert_eq!(Derives::new("PartialEq").render(), "#[derive(PartialEq)]");
}

#[test]
fn root_class_renders_default_supertype() {
    let stmt = class(plain("MyClass"), None, vec![]);
    assert_eq!(
        stmt.render(),
        "extern_class!(\n    #[derive(Debug, PartialEq, Eq, Hash)]\n    pub struct MyClass;\n\n    \
         unsafe impl ClassType for MyClass {\n        type Super = Object;\n    }\n);\n\n\
         extern_methods!(\n    unsafe impl MyClass {\n    }\n);\n"
    );
}

#[test]
fn class_with_members() {
    let property = Property {
        name: "type".to_string(),
        is_class: false,
        getter: "type".to_string(),
        setter: Some("setType:".to_string()),
        ty: ty(TyMode::Property, "NSString"),
    };
    let stmt = class(
        plain("MyClass"),
        Some(plain("NSObject")),
        vec![
            MethodOrProperty::Method(method(
                "initWith:trait:",
                false,
                vec![("value", "i32"), ("trait", "u8")],
                ty(TyMode::MethodReturn, "Self"),
            )),
            MethodOrProperty::Method(method("shared", true, vec![], void(TyMode::MethodReturn))),
            MethodOrProperty::Property(property),
        ],
    );
    assert_eq!(
        stmt.render(),
        "extern_class!(\n    #[derive(Debug, PartialEq, Eq, Hash)]\n    pub struct MyClass;\n\n    \
         unsafe impl ClassType for MyClass {\n        type Super = NSObject;\n    }\n);\n\n\
         extern_methods!(\n    unsafe impl MyClass {\n        \
         #[method(initWith:trait:)]\n        \
         pub unsafe fn initWith_trait(&self, value: i32,trait_: u8,) -> Self;\n        \
         #[method(shared)]\n        pub unsafe fn shared();\n        \
         #[method(type)]\n        pub unsafe fn type_(&self, ) -> NSString;\n        \
         #[method(setType:)]\n        pub unsafe fn setType(&self, type_: NSString,);\n    \
         }\n);\n"
    );
}

#[test]
fn members_render_alone() {
    let mut failing = method("save:error:", false, vec![("to", "NSURL")], void(TyMode::MethodReturn));
    failing.is_error = true;
    assert_eq!(
        MethodOrProperty::Method(failing.clone()).render(),
        "        #[method(save:error:_)]\n        \
         pub unsafe fn save_error(&self, to: NSURL,) -> Result<(), Id<NSError, Shared>>;"
    );
    failing.result_type = ty(TyMode::MethodReturn, "NSData");
    failing.is_class = true;
    assert_eq!(
        MethodOrProperty::Method(failing).render(),
        "        #[method(save:error:_)]\n        \
         pub unsafe fn save_error(to: NSURL,) -> Result<NSData, Id<NSError, Shared>>;"
    );
    let read_only = Property {
        name: "count".to_string(),
        is_class: true,
        getter: "count".to_string(),
        setter: None,
        ty: ty(TyMode::Property, "usize"),
    };
    assert_eq!(
        MethodOrProperty::Property(read_only).render(),
        "        #[method(count)]\n        pub unsafe fn count() -> usize;"
    );
}

#[test]
fn generic_class_has_ownership_parameters() {
    let mut array = plain("MyArray");
    array.generics = vec![plain("T"), plain("U")];
    let mut parent = plain("NSArray");
    let mut nested = plain("NSSet");
    nested.generics = vec![plain("T")];
    parent.generics = vec![nested];
    let stmt = class(array, Some(parent), vec![]);
    assert_eq!(
        stmt.render(),
        "__inner_extern_class!(\n    #[derive(Debug, PartialEq, Eq, Hash)]\n    \
         pub struct MyArray<T: Message = Object, U: Message = Object, \
         TOwnership: Ownership = Shared, UOwnership: Ownership = Shared, > {\n\
         _inner0: PhantomData<*mut (T, TOwnership)>,\n\
         _inner1: PhantomData<*mut (U, UOwnership)>,\n\
         notunwindsafe: PhantomData<&'static mut ()>,\n}\n\n    \
         unsafe impl<T: Message, U: Message, TOwnership: Ownership, UOwnership: Ownership, > \
         ClassType for MyArray<T, U, TOwnership, UOwnership, > {\n        \
         type Super = NSArray<NSSet<T,>, NSSet<T,>Ownership, >;\n    }\n);\n\n\
         extern_methods!(\n    \
         unsafe impl<T: Message, U: Message, TOwnership: Ownership, UOwnership: Ownership, > \
         MyArray<T, U, TOwnership, UOwnership, > {\n    }\n);\n"
    );
}

#[test]
fn category_and_protocol() {
    let member = MethodOrProperty::Method(method("extra", false, vec![], void(TyMode::MethodReturn)));
    let named = Stmt::CategoryDecl {
        class_ty: plain("MyClass"),
        availability: Availability::new(),
        name: Some("Extras".to_string()),
        protocols: vec![],
        methods: vec![member.clone()],
    };
    assert_eq!(
        named.render(),
        "extern_methods!(\n    /// Extras\n    unsafe impl MyClass {\n        \
         #[method(extra)]\n        pub unsafe fn extra(&self, );\n    }\n);\n"
    );
    let unnamed = Stmt::CategoryDecl {
        class_ty: plain("MyClass"),
        availability: Availability::new(),
        name: None,
        protocols: vec![],
        methods: vec![],
    };
    assert_eq!(unnamed.render(), "extern_methods!(\n    unsafe impl MyClass {\n    }\n);\n");
    let protocol = Stmt::ProtocolDecl {
        name: "NSCopying".to_string(),
        availability: Availability::new(),
        protocols: vec![],
        methods: vec![member],
    };
    assert_eq!(
        protocol.render(),
        "extern_protocol!(\n    pub struct NSCopying;\n\n    \
         unsafe impl ProtocolType for NSCopying {\n        \
         #[method(extra)]\n        pub unsafe fn extra(&self, );\n    }\n);\n"
    );
}

#[test]
fn struct_with_private_field() {
    let stmt = Stmt::StructDecl {
        name: "S".to_string(),
        boxable: false,
        fields: vec![
            ("_reserved".to_string(), ty(TyMode::StructField, "int")),
            ("x".to_string(), ty(TyMode::StructField, "float")),
        ],
    };
    assert_eq!(
        stmt.render(),
        "extern_struct!(\n    pub struct S {\n        _reserved: int,\n        pub x: float,\n    }\n);\n"
    );
    let empty = Stmt::StructDecl { name: "E".to_string(), boxable: true, fields: vec![] };
    assert_eq!(empty.render(), "extern_struct!(\n    pub struct E {\n    }\n);\n");
}

#[test]
fn enumerations_of_every_kind() {
    let variants = vec![
        ("Red".to_string(), Expr::Signed(-1)),
        ("Green".to_string(), Expr::Symbolic("1 << 1".to_string())),
        ("Blue".to_string(), Expr::Unsigned(u64::MAX)),
        ("Least".to_string(), Expr::Signed(i64::MIN)),
        ("Most".to_string(), Expr::Signed(i64::MAX)),
        ("Zero".to_string(), Expr::Unsigned(0)),
        ("Ten".to_string(), Expr::Signed(10)),
    ];
    let named = Stmt::EnumDecl {
        name: Some("Color".to_string()),
        ty: ty(TyMode::Enum, "NSInteger"),
        kind: Some(UnexposedMacro::Enum),
        variants,
    };
    assert_eq!(
        named.render(),
        "ns_enum!(\n    #[underlying(NSInteger)]\n    pub enum Color {\n        Red = -1,\n        \
         Green = 1 << 1,\n        Blue = 18446744073709551615,\n        \
         Least = -9223372036854775808,\n        Most = 9223372036854775807,\n        \
         Zero = 0,\n        Ten = 10,\n    }\n);\n"
    );
    for (kind, name) in [
        (None, "extern_enum"),
        (Some(UnexposedMacro::Options), "ns_options"),
        (Some(UnexposedMacro::ClosedEnum), "ns_closed_enum"),
        (Some(UnexposedMacro::ErrorEnum), "ns_error_enum"),
    ] {
        let stmt = Stmt::EnumDecl { name: None, ty: ty(TyMode::Enum, "u8"), kind, variants: vec![] };
        assert_eq!(
            stmt.render(),
            format!("{}!(\n    #[underlying(u8)]\n    pub enum {{\n    }}\n);\n", name)
        );
    }
}

#[test]
fn variables_functions_and_aliases() {
    let plain_var =
        Stmt::VarDecl { name: "Limit".to_string(), ty: ty(TyMode::Static, "NSInteger"), value: None };
    assert_eq!(plain_var.render(), "extern_static!(Limit: NSInteger);\n");
    let constant = Stmt::VarDecl {
        name: "Limit".to_string(),
        ty: ty(TyMode::Static, "NSInteger"),
        value: Some(Expr::Symbolic("10".to_string())),
    };
    assert_eq!(constant.render(), "extern_static!(Limit: NSInteger = 10);\n");

    let arguments = vec![
        ("x".to_string(), ty(TyMode::FnArgument, "f64")),
        ("abstract".to_string(), ty(TyMode::FnArgument, "u8")),
    ];
    let declared = Stmt::FnDecl {
        name: "compute".to_string(),
        arguments: arguments.clone(),
        result_type: ty(TyMode::FnReturn, "f64"),
        body: None,
    };
    assert_eq!(
        declared.render(),
        "extern_fn!(\n    pub unsafe fn compute(x: f64,abstract_: u8,) -> f64;\n);\n"
    );
    let inline = Stmt::FnDecl {
        name: "compute".to_string(),
        arguments: vec![],
        result_type: void(TyMode::FnReturn),
        body: Some(()),
    };
    assert_eq!(
        inline.render(),
        format!("inline_fn!(\n    pub unsafe fn compute() {{\n        {}!()\n    }}\n);\n", "todo")
    );
    let alias = Stmt::AliasDecl { name: "Name".to_string(), ty: ty(TyMode::Typedef, "Underlying") };
    assert_eq!(alias.render(), "pub type Name = Underlying;\n");
}

#[test]
fn the_position_of_a_type_decides_how_it_is_written() {
    let mut out = String::new();
    void(TyMode::FnReturn).push_text(&mut out);
    assert_eq!(out, "");
    void(TyMode::StructField).push_text(&mut out);
    assert_eq!(out, "void");
    ty(TyMode::MethodReturn, "u8").push_text(&mut out);
    assert_eq!(out, "void -> u8");
}

#[test]
fn compare_names_the_first_differing_member() {
    let a = MethodOrProperty::Method(method("a", false, vec![], void(TyMode::MethodReturn)));
    let b = MethodOrProperty::Method(method("b", false, vec![], void(TyMode::MethodReturn)));
    let c = MethodOrProperty::Method(method("c", false, vec![], void(TyMode::MethodReturn)));
    let first = class(plain("MyClass"), None, vec![a.clone(), b.clone(), c.clone()]);
    let same = class(plain("MyClass"), None, vec![a.clone(), b.clone(), c.clone()]);
    assert_eq!(first.compare(&same), Ok(()));

    let second = class(plain("MyClass"), None, vec![a.clone(), c.clone(), b.clone()]);
    assert_eq!(first.compare(&second), Err(Mismatch::Member { index: 1 }));
    assert!(!first.same(&second));

    // one list is the start of the other: the first surplus member is named
    let shorter = class(plain("MyClass"), None, vec![a.clone(), b.clone()]);
    assert_eq!(first.compare(&shorter), Err(Mismatch::Member { index: 2 }));
    assert_eq!(shorter.compare(&first), Err(Mismatch::Member { index: 2 }));
    let empty = class(plain("MyClass"), None, vec![]);
    assert_eq!(first.compare(&empty), Err(Mismatch::Member { index: 0 }));

    // the same members under another name
    let renamed = class(plain("Other"), None, vec![a.clone(), b.clone(), c.clone()]);
    assert_eq!(first.compare(&renamed), Err(Mismatch::Statement));
    // a difference in both: the members are named
    let both = class(plain("Other"), None, vec![b.clone()]);
    assert_eq!(first.compare(&both), Err(Mismatch::Member { index: 0 }));

    let category = Stmt::CategoryDecl {
        class_ty: plain("MyClass"),
        availability: Availability::new(),
        name: None,
        protocols: vec![],
        methods: vec![a],
    };
    // a class and a category are of different kinds: no member is named
    assert_eq!(first.compare(&category), Err(Mismatch::Statement));
}

#[test]
fn compare_names_members_of_categories_and_protocols() {
    let a = MethodOrProperty::Method(method("a", false, vec![], void(TyMode::MethodReturn)));
    let b = MethodOrProperty::Method(method("b", false, vec![], void(TyMode::MethodReturn)));
    let category = |name: Option<&str>, methods: Vec<MethodOrProperty>| Stmt::CategoryDecl {
        class_ty: plain("MyClass"),
        availability: Availability::new(),
        name: name.map(|s| s.to_string()),
        protocols: vec![],
        methods,
    };
    let protocol = |name: &str, methods: Vec<MethodOrProperty>| Stmt::ProtocolDecl {
        name: name.to_string(),
        availability: Availability::new(),
        protocols: vec![],
        methods,
    };
    let first = category(None, vec![a.clone(), a.clone()]);
    assert_eq!(first.compare(&category(None, vec![a.clone(), a.clone()])), Ok(()));
    assert_eq!(
        first.compare(&category(None, vec![a.clone(), b.clone()])),
        Err(Mismatch::Member { index: 1 })
    );
    assert_eq!(
        first.compare(&category(None, vec![a.clone()])),
        Err(Mismatch::Member { index: 1 })
    );
    // the same members under another name
    assert_eq!(
        first.compare(&category(Some("Extras"), vec![a.clone(), a.clone()])),
        Err(Mismatch::Statement)
    );

    let first = protocol("P", vec![a.clone()]);
    assert_eq!(first.compare(&protocol("P", vec![a.clone()])), Ok(()));
    assert_eq!(first.compare(&protocol("P", vec![b.clone()])), Err(Mismatch::Member { index: 0 }));
    assert_eq!(
        first.compare(&protocol("P", vec![a.clone(), b.clone()])),
        Err(Mismatch::Member { index: 1 })
    );
    assert_eq!(first.compare(&protocol("Q", vec![a.clone()])), Err(Mismatch::Statement));
    // a category and a protocol are of different kinds
    assert_eq!(first.compare(&category(None, vec![a])), Err(Mismatch::Statement));
}

#[test]
fn statements_differ_in_every_part() {
    let base = Stmt::FnDecl {
        name: "f".to_string(),
        arguments: vec![("x".to_string(), ty(TyMode::FnArgument, "u8"))],
        result_type: void(TyMode::FnReturn),
        body: None,
    };
    let mut others = Vec::new();
    others.push(Stmt::FnDecl {
        name: "g".to_string(),
        arguments: vec![("x".to_string(), ty(TyMode::FnArgument, "u8"))],
        result_type: void(TyMode::FnReturn),
        body: None,
    });
    others.push(Stmt::FnDecl {
        name: "f".to_string(),
        arguments: vec![("x".to_string(), ty(TyMode::FnArgument, "u16"))],
        result_type: void(TyMode::FnReturn),
        body: None,
    });
    others.push(Stmt::FnDecl {
        name: "f".to_string(),
        arguments: vec![("x".to_string(), ty(TyMode::StructField, "u8"))],
        result_type: void(TyMode::FnReturn),
        body: None,
    });
    others.push(Stmt::FnDecl {
        name: "f".to_string(),
        arguments: vec![("x".to_string(), ty(TyMode::FnArgument, "u8"))],
        result_type: void(TyMode::FnReturn),
        body: Some(()),
    });
    others.push(Stmt::AliasDecl { name: "f".to_string(), ty: void(TyMode::Typedef) });
    assert!(base.same(&base));
    for other in &others {
        assert!(!base.same(other));
        assert_eq!(base.compare(other), Err(Mismatch::Statement));
        assert!(other.same(other));
    }
}
