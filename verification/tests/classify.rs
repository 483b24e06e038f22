use header_translator::availability::{Availability, PlatformAvailability};
use header_translator::config::{ClassData, Config, EnumData, ItemData};
use header_translator::entity::{type_kind, Entity, EntityKind, TypeDescriptor, TypeKind};
use header_translator::error::StructuralError;
use header_translator::expr::Expr;
use header_translator::rust_type::{GenericType, Ty, TyMode};
use header_translator::stmt::{Derives, MethodOrProperty, Stmt};
use header_translator::unexposed_macro::UnexposedMacro;

fn desc(kind: TypeKind, name: &str) -> TypeDescriptor {
    TypeDescriptor { kind, name: name.to_string() }
}

fn available(kind: EntityKind, name: &str) -> Entity {
    let mut entity = Entity::named(kind, name);
    entity.availability = Some(Availability::new());
    entity
}

fn typed(kind: EntityKind, name: &str, of_kind: TypeKind, of_name: &str) -> Entity {
    let mut entity = Entity::named(kind, name);
    entity.ty = Some(desc(of_kind, of_name));
    entity
}

fn method(kind: EntityKind, selector: &str) -> Entity {
    let mut entity = available(kind, selector);
    entity.result_type = Some(desc(TypeKind::Void, "void"));
    entity
}

fn property(name: &str, getter: &str, setter: Option<&str>) -> Entity {
    let mut entity = typed(EntityKind::ObjCPropertyDecl, name, TypeKind::Other, "NSString");
    entity.getter = Some(getter.to_string());
    entity.setter = setter.map(|s| s.to_string());
    entity
}

fn class_with(children: Vec<Entity>) -> Entity {
    let mut entity = available(EntityKind::ObjCInterfaceDecl, "MyClass");
    entity.children = children;
    entity
}

fn rooted(mut children: Vec<Entity>) -> Entity {
    let mut all = vec![Entity::new(EntityKind::ObjCRootClass)];
    all.append(&mut children);
    class_with(all)
}

fn members_of(stmt: &Stmt) -> &Vec<MethodOrProperty> {
    match stmt {
        Stmt::ClassDecl { methods, .. } => methods,
        Stmt::CategoryDecl { methods, .. } => methods,
        Stmt::ProtocolDecl { methods, .. } => methods,
        _ => panic!("no members"),
    }
}

fn class_data() -> ClassData {
    ClassData {
        skipped: false,
        new_superclass_name: None,
        derives: Derives::default(),
        methods: Vec::new(),
        properties: Vec::new(),
    }
}

#[test]
fn root_class_marker_gives_root_class() {
    let entity = class_with(vec![Entity::new(EntityKind::ObjCRootClass)]);
    let stmt = Stmt::parse(&entity, &Config::new()).unwrap().unwrap();
    match &stmt {
        Stmt::ClassDecl { ty, superclass, derives, protocols, methods, .. } => {
            assert_eq!(ty.name, "MyClass");
            assert!(ty.generics.is_empty());
            assert_eq!(*superclass, None);
            assert_eq!(derives.0, "Debug, PartialEq, Eq, Hash");
            assert!(protocols.is_empty());
            assert!(methods.is_empty());
        }
        _ => panic!("not a class"),
    }
    assert!(stmt.render().contains("        type Super = Object;\n"));
}

#[test]
fn superclass_reference_with_type_arguments() {
    let entity = class_with(vec![
        Entity::named(EntityKind::TemplateTypeParameter, "T"),
        Entity::named(EntityKind::ObjCSuperClassRef, "NSArray"),
        Entity::named(EntityKind::TypeRef, "T"),
        Entity::named(EntityKind::TypeRef, "U"),
        Entity::named(EntityKind::ObjCProtocolRef, "NSCopying"),
    ]);
    let stmt = Stmt::parse(&entity, &Config::new()).unwrap().unwrap();
    match stmt {
        Stmt::ClassDecl { ty, superclass, protocols, .. } => {
            assert_eq!(ty.generics, vec![GenericType::new("T".to_string())]);
            let parent = superclass.unwrap();
            assert_eq!(parent.name, "NSArray");
            assert_eq!(
                parent.generics,
                vec![GenericType::new("T".to_string()), GenericType::new("U".to_string())]
            );
            assert_eq!(protocols, vec!["NSCopying".to_string()]);
        }
        _ => panic!("not a class"),
    }
}

#[test]
fn class_without_superclass_is_an_inconsistency() {
    let entity = class_with(vec![]);
    assert_eq!(Stmt::parse(&entity, &Config::new()), Err(StructuralError::MissingSuperclass));
}

#[test]
fn configured_superclass_name_settles_the_slot() {
    let mut config = Config::new();
    let mut data = class_data();
    data.new_superclass_name = Some("NSObject".to_string());
    data.derives = Derives::new("Debug");
    config.class_data.push(("MyClass".to_string(), data));

    let bare = class_with(vec![]);
    match Stmt::parse(&bare, &config).unwrap().unwrap() {
        Stmt::ClassDecl { superclass, derives, .. } => {
            assert_eq!(superclass, Some(GenericType::new("NSObject".to_string())));
            assert_eq!(derives.0, "Debug");
        }
        _ => panic!("not a class"),
    }

    let with_parent = class_with(vec![
        Entity::named(EntityKind::ObjCSuperClassRef, "NSArray"),
        Entity::named(EntityKind::TypeRef, "T"),
    ]);
    match Stmt::parse(&with_parent, &config).unwrap().unwrap() {
        Stmt::ClassDecl { superclass, .. } => {
            let parent = superclass.unwrap();
            assert_eq!(parent.name, "NSObject");
            assert_eq!(parent.generics, vec![GenericType::new("T".to_string())]);
        }
        _ => panic!("not a class"),
    }
}

#[test]
fn skipped_class_gives_nothing() {
    let mut config = Config::new();
    let mut data = class_data();
    data.skipped = true;
    config.class_data.push(("MyClass".to_string(), data));
    // skipping comes before every other look at the entity
    let mut entity = class_with(vec![Entity::new(EntityKind::Other)]);
    entity.availability = None;
    assert_eq!(Stmt::parse(&entity, &config), Ok(None));
}

#[test]
fn class_needs_name_and_availability() {
    let mut unnamed = Entity::new(EntityKind::ObjCInterfaceDecl);
    unnamed.availability = Some(Availability::new());
    assert_eq!(Stmt::parse(&unnamed, &Config::new()), Err(StructuralError::MissingName));

    let mut entity = class_with(vec![Entity::new(EntityKind::ObjCRootClass)]);
    entity.availability = None;
    assert_eq!(Stmt::parse(&entity, &Config::new()), Err(StructuralError::MissingAvailability));
}

#[test]
fn accessor_methods_merge_into_their_property() {
    let entity = rooted(vec![
        property("name", "name", Some("setName:")),
        method(EntityKind::ObjCInstanceMethodDecl, "name"),
        method(EntityKind::ObjCInstanceMethodDecl, "setName:"),
        method(EntityKind::ObjCInstanceMethodDecl, "reset"),
    ]);
    let stmt = Stmt::parse(&entity, &Config::new()).unwrap().unwrap();
    let members = members_of(&stmt);
    assert_eq!(members.len(), 2);
    match &members[0] {
        MethodOrProperty::Property(p) => {
            assert_eq!(p.name, "name");
            assert_eq!(p.getter, "name");
            assert_eq!(p.setter, Some("setName:".to_string()));
            assert!(!p.is_class);
            assert_eq!(p.ty.mode, TyMode::Property);
        }
        _ => panic!("not a property"),
    }
    match &members[1] {
        MethodOrProperty::Method(m) => assert_eq!(m.selector, "reset"),
        _ => panic!("not a method"),
    }
}

#[test]
fn method_before_its_property_is_not_merged() {
    let entity = rooted(vec![
        method(EntityKind::ObjCInstanceMethodDecl, "name"),
        property("name", "name", None),
        method(EntityKind::ObjCInstanceMethodDecl, "name"),
    ]);
    let stmt = Stmt::parse(&entity, &Config::new()).unwrap().unwrap();
    let members = members_of(&stmt);
    assert_eq!(members.len(), 2);
    assert!(matches!(&members[0], MethodOrProperty::Method(_)));
    assert!(matches!(&members[1], MethodOrProperty::Property(_)));
}

#[test]
fn class_level_accessor_does_not_match_instance_property() {
    let entity = rooted(vec![
        property("name", "name", None),
        method(EntityKind::ObjCClassMethodDecl, "name"),
    ]);
    assert_eq!(Stmt::parse(&entity, &Config::new()), Err(StructuralError::UnmatchedProperties));
}

#[test]
fn unmatched_accessor_is_an_inconsistency() {
    let entity = rooted(vec![
        property("name", "name", Some("setName:")),
        method(EntityKind::ObjCInstanceMethodDecl, "name"),
    ]);
    assert_eq!(Stmt::parse(&entity, &Config::new()), Err(StructuralError::UnmatchedProperties));
}

#[test]
fn display_name_setter_may_stay_unmatched() {
    let entity = rooted(vec![
        property("displayName", "displayName", Some("setDisplayName:")),
        method(EntityKind::ObjCInstanceMethodDecl, "displayName"),
    ]);
    let stmt = Stmt::parse(&entity, &Config::new()).unwrap().unwrap();
    assert_eq!(members_of(&stmt).len(), 1);

    // only for an instance property, and only alone
    let mut class_level = property("displayName", "displayName", Some("setDisplayName:"));
    class_level.is_class = true;
    let entity = rooted(vec![class_level, method(EntityKind::ObjCClassMethodDecl, "displayName")]);
    assert_eq!(Stmt::parse(&entity, &Config::new()), Err(StructuralError::UnmatchedProperties));

    let entity = rooted(vec![
        property("displayName", "displayName", Some("setDisplayName:")),
        property("other", "other", None),
        method(EntityKind::ObjCInstanceMethodDecl, "displayName"),
    ]);
    assert_eq!(Stmt::parse(&entity, &Config::new()), Err(StructuralError::UnmatchedProperties));

    // the selector is the setter's, with its colon: no other spelling is tolerated
    for setter in ["setDisplayName", "setDisplayName::", "setDisplayname:"] {
        let entity = rooted(vec![
            property("displayName", "displayName", Some(setter)),
            method(EntityKind::ObjCInstanceMethodDecl, "displayName"),
        ]);
        assert_eq!(Stmt::parse(&entity, &Config::new()), Err(StructuralError::UnmatchedProperties));
    }

    // where its method is there, the setter is taken up like any other
    let entity = rooted(vec![
        property("displayName", "displayName", Some("setDisplayName:")),
        method(EntityKind::ObjCInstanceMethodDecl, "setDisplayName:"),
        method(EntityKind::ObjCInstanceMethodDecl, "displayName"),
    ]);
    let stmt = Stmt::parse(&entity, &Config::new()).unwrap().unwrap();
    assert_eq!(members_of(&stmt).len(), 1);
}

#[test]
fn accessor_registered_twice_is_an_inconsistency() {
    let entity = rooted(vec![property("a", "value", None), property("b", "value", None)]);
    assert_eq!(Stmt::parse(&entity, &Config::new()), Err(StructuralError::DuplicateProperty));

    let entity = rooted(vec![property("a", "value", Some("value"))]);
    assert_eq!(Stmt::parse(&entity, &Config::new()), Err(StructuralError::DuplicateProperty));
}

#[test]
fn configured_members_are_dropped() {
    let mut config = Config::new();
    let mut data = class_data();
    data.methods.push(("reset".to_string(), ItemData { skipped: true }));
    data.properties.push(("name".to_string(), ItemData { skipped: true }));
    config.class_data.push(("MyClass".to_string(), data));
    let entity = rooted(vec![
        property("name", "name", None),
        method(EntityKind::ObjCInstanceMethodDecl, "name"),
        method(EntityKind::ObjCInstanceMethodDecl, "reset"),
        method(EntityKind::ObjCInstanceMethodDecl, "keep"),
    ]);
    let stmt = Stmt::parse(&entity, &config).unwrap().unwrap();
    let members = members_of(&stmt);
    assert_eq!(members.len(), 1);
    match &members[0] {
        MethodOrProperty::Method(m) => assert_eq!(m.selector, "keep"),
        _ => panic!("not a method"),
    }
}

#[test]
fn method_parameters_and_error_convention() {
    let mut with_error = method(EntityKind::ObjCClassMethodDecl, "load:error:");
    with_error.result_type = Some(desc(TypeKind::Other, "bool"));
    with_error.children = vec![
        typed(EntityKind::ParmDecl, "path", TypeKind::Other, "NSString"),
        Entity::named(EntityKind::ObjCProtocolRef, "NSCopying"),
        typed(EntityKind::ParmDecl, "error", TypeKind::ErrorPointer, "NSError"),
    ];
    let mut unnamed = Entity::new(EntityKind::ParmDecl);
    unnamed.ty = Some(desc(TypeKind::Other, "i32"));
    let mut plain = method(EntityKind::ObjCInstanceMethodDecl, "take:");
    plain.children = vec![unnamed];
    let mut variadic = method(EntityKind::ObjCInstanceMethodDecl, "format:");
    variadic.is_variadic = true;

    let entity = rooted(vec![with_error, plain, variadic]);
    let stmt = Stmt::parse(&entity, &Config::new()).unwrap().unwrap();
    let members = members_of(&stmt);
    assert_eq!(members.len(), 2);
    match &members[0] {
        MethodOrProperty::Method(m) => {
            assert!(m.is_class);
            assert!(m.is_error);
            assert_eq!(m.arguments.len(), 1);
            assert_eq!(m.arguments[0].0, "path");
            assert_eq!(m.arguments[0].1.mode, TyMode::MethodArgument);
            assert_eq!(m.result_type.mode, TyMode::MethodReturn);
        }
        _ => panic!("not a method"),
    }
    match &members[1] {
        MethodOrProperty::Method(m) => {
            assert!(!m.is_class);
            assert!(!m.is_error);
            assert_eq!(m.arguments[0].0, "_");
        }
        _ => panic!("not a method"),
    }
}

#[test]
fn members_need_their_metadata() {
    let config = Config::new();
    let unnamed = Entity::new(EntityKind::ObjCInstanceMethodDecl);
    assert_eq!(Stmt::parse(&rooted(vec![unnamed]), &config), Err(StructuralError::MissingName));

    let mut no_availability = method(EntityKind::ObjCInstanceMethodDecl, "a");
    no_availability.availability = None;
    assert_eq!(
        Stmt::parse(&rooted(vec![no_availability]), &config),
        Err(StructuralError::MissingAvailability)
    );

    let mut no_result = method(EntityKind::ObjCInstanceMethodDecl, "a");
    no_result.result_type = None;
    assert_eq!(Stmt::parse(&rooted(vec![no_result]), &config), Err(StructuralError::MissingType));

    let mut no_getter = property("a", "a", None);
    no_getter.getter = None;
    assert_eq!(Stmt::parse(&rooted(vec![no_getter]), &config), Err(StructuralError::MissingName));

    let mut untyped = property("a", "a", None);
    untyped.ty = None;
    assert_eq!(
        Stmt::parse(&rooted(vec![untyped, method(EntityKind::ObjCInstanceMethodDecl, "a")]), &config),
        Err(StructuralError::MissingType)
    );

    let mut bad_child = method(EntityKind::ObjCInstanceMethodDecl, "a");
    bad_child.children = vec![Entity::new(EntityKind::FieldDecl)];
    assert_eq!(Stmt::parse(&rooted(vec![bad_child]), &config), Err(StructuralError::UnknownChild));
}

#[test]
fn unknown_children_of_a_class_are_inconsistencies() {
    let config = Config::new();
    assert_eq!(
        Stmt::parse(&rooted(vec![Entity::new(EntityKind::Other)]), &config),
        Err(StructuralError::UnknownChild)
    );
    assert_eq!(
        Stmt::parse(&rooted(vec![Entity::new(EntityKind::ObjCExplicitProtocolImpl)]), &config),
        Err(StructuralError::UnknownChild)
    );
    assert_eq!(
        Stmt::parse(&rooted(vec![Entity::named(EntityKind::TypeRef, "T")]), &config),
        Err(StructuralError::UnsupportedChild)
    );
    // ignored children
    let entity = rooted(vec![
        Entity::new(EntityKind::ObjCIvarDecl),
        Entity::new(EntityKind::ObjCException),
        Entity::new(EntityKind::VisibilityAttr),
        Entity::named(EntityKind::UnexposedAttr, "NS_ENUM"),
        Entity::named(EntityKind::ObjCClassRef, "Other"),
    ]);
    assert!(Stmt::parse(&entity, &config).unwrap().is_some());
}

#[test]
fn category_names_exactly_one_class() {
    let config = Config::new();
    let mut entity = available(EntityKind::ObjCCategoryDecl, "Extras");
    entity.children = vec![
        Entity::named(EntityKind::ObjCClassRef, "MyClass"),
        Entity::named(EntityKind::TemplateTypeParameter, "T"),
        Entity::named(EntityKind::ObjCProtocolRef, "NSCoding"),
        method(EntityKind::ObjCInstanceMethodDecl, "extra"),
    ];
    match Stmt::parse(&entity, &config).unwrap().unwrap() {
        Stmt::CategoryDecl { class_ty, name, protocols, methods, .. } => {
            assert_eq!(class_ty.name, "MyClass");
            assert_eq!(class_ty.generics, vec![GenericType::new("T".to_string())]);
            assert_eq!(name, Some("Extras".to_string()));
            assert_eq!(protocols, vec!["NSCoding".to_string()]);
            assert_eq!(methods.len(), 1);
        }
        _ => panic!("not a category"),
    }

    let mut none = available(EntityKind::ObjCCategoryDecl, "Extras");
    none.children = vec![method(EntityKind::ObjCInstanceMethodDecl, "extra")];
    assert_eq!(Stmt::parse(&none, &config), Err(StructuralError::CategoryClass));

    let mut two = available(EntityKind::ObjCCategoryDecl, "Extras");
    two.children = vec![
        Entity::named(EntityKind::ObjCClassRef, "A"),
        Entity::named(EntityKind::ObjCClassRef, "B"),
    ];
    assert_eq!(Stmt::parse(&two, &config), Err(StructuralError::CategoryClass));

    let mut with_superclass = available(EntityKind::ObjCCategoryDecl, "Extras");
    with_superclass.children = vec![
        Entity::named(EntityKind::ObjCClassRef, "A"),
        Entity::named(EntityKind::ObjCSuperClassRef, "B"),
    ];
    assert_eq!(Stmt::parse(&with_superclass, &config), Err(StructuralError::UnsupportedChild));

    let mut rootish = available(EntityKind::ObjCCategoryDecl, "Extras");
    rootish.children =
        vec![Entity::named(EntityKind::ObjCClassRef, "A"), Entity::new(EntityKind::ObjCRootClass)];
    assert_eq!(Stmt::parse(&rootish, &config), Err(StructuralError::UnsupportedChild));
}

#[test]
fn anonymous_category_of_skipped_class() {
    let mut config = Config::new();
    let mut data = class_data();
    data.skipped = true;
    config.class_data.push(("MyClass".to_string(), data));
    let mut entity = Entity::new(EntityKind::ObjCCategoryDecl);
    entity.availability = Some(Availability::new());
    entity.children = vec![Entity::named(EntityKind::ObjCClassRef, "MyClass")];
    assert_eq!(Stmt::parse(&entity, &config), Ok(None));
    match Stmt::parse(&entity, &Config::new()).unwrap().unwrap() {
        Stmt::CategoryDecl { name, .. } => assert_eq!(name, None),
        _ => panic!("not a category"),
    }
}

#[test]
fn protocol_has_no_slots() {
    let mut config = Config::new();
    let mut entity = available(EntityKind::ObjCProtocolDecl, "NSCopying");
    entity.children = vec![
        Entity::new(EntityKind::ObjCExplicitProtocolImpl),
        Entity::named(EntityKind::ObjCProtocolRef, "NSObject"),
        method(EntityKind::ObjCInstanceMethodDecl, "copy"),
    ];
    match Stmt::parse(&entity, &config).unwrap().unwrap() {
        Stmt::ProtocolDecl { name, protocols, methods, .. } => {
            assert_eq!(name, "NSCopying");
            assert_eq!(protocols, vec!["NSObject".to_string()]);
            assert_eq!(methods.len(), 1);
        }
        _ => panic!("not a protocol"),
    }
    let mut generic = available(EntityKind::ObjCProtocolDecl, "P");
    generic.children = vec![Entity::named(EntityKind::TemplateTypeParameter, "T")];
    assert_eq!(Stmt::parse(&generic, &config), Err(StructuralError::UnsupportedChild));
    let mut with_class = available(EntityKind::ObjCProtocolDecl, "P");
    with_class.children = vec![Entity::named(EntityKind::ObjCClassRef, "C")];
    assert_eq!(Stmt::parse(&with_class, &config), Err(StructuralError::UnknownChild));

    let mut data = class_data();
    data.skipped = true;
    config.protocol_data.push(("NSCopying".to_string(), data));
    assert_eq!(Stmt::parse(&entity, &config), Ok(None));
}

fn point_struct(name: Option<&str>) -> Entity {
    let mut entity = match name {
        Some(name) => Entity::named(EntityKind::StructDecl, name),
        None => Entity::new(EntityKind::StructDecl),
    };
    entity.children = vec![
        typed(EntityKind::FieldDecl, "a", TypeKind::SignedInteger, "int"),
        Entity::new(EntityKind::ObjCBoxable),
        typed(EntityKind::FieldDecl, "b", TypeKind::Other, "float"),
    ];
    entity
}

#[test]
fn struct_fields_keep_declaration_order() {
    let stmt = Stmt::parse(&point_struct(Some("Point")), &Config::new()).unwrap().unwrap();
    match &stmt {
        Stmt::StructDecl { name, boxable, fields } => {
            assert_eq!(name, "Point");
            assert!(*boxable);
            assert_eq!(fields.len(), 2);
            assert_eq!(fields[0].0, "a");
            assert_eq!(fields[0].1.name, "int");
            assert_eq!(fields[0].1.mode, TyMode::StructField);
            assert_eq!(fields[1].0, "b");
            assert_eq!(fields[1].1.name, "float");
        }
        _ => panic!("not a struct"),
    }
    assert_eq!(
        stmt.render(),
        "extern_struct!(\n    pub struct Point {\n        pub a: int,\n        pub b: float,\n    }\n);\n"
    );
}

#[test]
fn private_unnamed_and_skipped_structs_give_nothing() {
    let mut config = Config::new();
    assert_eq!(Stmt::parse(&point_struct(Some("_Point")), &config), Ok(None));
    assert_eq!(Stmt::parse(&point_struct(None), &config), Ok(None));
    config.struct_data.push(("Point".to_string(), ItemData { skipped: true }));
    assert_eq!(Stmt::parse(&point_struct(Some("Point")), &config), Ok(None));
}

#[test]
fn struct_children_are_checked() {
    let config = Config::new();
    let mut entity = Entity::named(EntityKind::StructDecl, "S");
    entity.children = vec![Entity::named(EntityKind::UnexposedAttr, "NS_OPTIONS")];
    assert_eq!(Stmt::parse(&entity, &config), Err(StructuralError::UnexpectedAttribute));
    entity.children = vec![Entity::named(EntityKind::UnexposedAttr, "NS_SWIFT_NAME")];
    assert!(Stmt::parse(&entity, &config).unwrap().is_some());
    entity.children = vec![Entity::named(EntityKind::FieldDecl, "a")];
    assert_eq!(Stmt::parse(&entity, &config), Err(StructuralError::MissingType));
    let mut unnamed = Entity::new(EntityKind::FieldDecl);
    unnamed.ty = Some(desc(TypeKind::Other, "int"));
    entity.children = vec![unnamed];
    assert_eq!(Stmt::parse(&entity, &config), Err(StructuralError::MissingName));
    entity.children = vec![Entity::new(EntityKind::ParmDecl)];
    assert_eq!(Stmt::parse(&entity, &config), Err(StructuralError::UnknownChild));
}

fn typedef(name: &str, children: Vec<Entity>) -> Entity {
    let mut entity = typed(EntityKind::TypedefDecl, name, TypeKind::Other, "Underlying");
    entity.children = children;
    entity
}

#[test]
fn typedef_of_private_struct_is_that_struct() {
    let config = Config::new();
    for inner in [point_struct(None), point_struct(Some("_Point"))] {
        match Stmt::parse(&typedef("Point", vec![inner]), &config).unwrap().unwrap() {
            Stmt::StructDecl { name, fields, .. } => {
                assert_eq!(name, "Point");
                assert_eq!(fields.len(), 2);
            }
            _ => panic!("not a struct"),
        }
    }
}

#[test]
fn typedef_of_named_struct_gives_nothing() {
    let mut config = Config::new();
    assert_eq!(Stmt::parse(&typedef("Point", vec![point_struct(Some("Point"))]), &config), Ok(None));
    config.struct_data.push(("Point".to_string(), ItemData { skipped: true }));
    assert_eq!(Stmt::parse(&typedef("Point", vec![point_struct(None)]), &config), Ok(None));
}

#[test]
fn typedef_is_an_alias_otherwise() {
    let mut config = Config::new();
    let entity = typedef(
        "Name",
        vec![
            Entity::named(EntityKind::TypeRef, "Underlying"),
            Entity::named(EntityKind::ObjCClassRef, "C"),
            Entity::named(EntityKind::ObjCProtocolRef, "P"),
            Entity::new(EntityKind::ParmDecl),
        ],
    );
    assert_eq!(
        Stmt::parse(&entity, &config),
        Ok(Some(Stmt::AliasDecl {
            name: "Name".to_string(),
            ty: Ty { mode: TyMode::Typedef, kind: TypeKind::Other, name: "Underlying".to_string() },
        }))
    );

    let mut callback = typedef("Callback", vec![]);
    callback.ty = Some(desc(TypeKind::FunctionPointer, "fn()"));
    assert_eq!(Stmt::parse(&callback, &config), Ok(None));

    let mut untyped = typedef("Name", vec![]);
    untyped.ty = None;
    assert_eq!(Stmt::parse(&untyped, &config), Err(StructuralError::MissingType));

    assert_eq!(
        Stmt::parse(&typedef("Name", vec![Entity::new(EntityKind::FieldDecl)]), &config),
        Err(StructuralError::UnknownChild)
    );
    assert_eq!(
        Stmt::parse(&typedef("Name", vec![Entity::named(EntityKind::UnexposedAttr, "NS_ENUM")]), &config),
        Err(StructuralError::UnexpectedAttribute)
    );
    assert_eq!(
        Stmt::parse(&Entity::new(EntityKind::TypedefDecl), &config),
        Err(StructuralError::MissingName)
    );

    config.typedef_data.push(("Name".to_string(), ItemData { skipped: true }));
    assert_eq!(Stmt::parse(&entity, &config), Ok(None));
}

fn constant(name: &str, value: i64, expression: Option<&str>) -> Entity {
    let mut entity = Entity::named(EntityKind::EnumConstantDecl, name);
    entity.constant_value = Some((value, value as u64));
    entity.expression = expression.map(|s| s.to_string());
    entity
}

fn color_enum(is_definition: bool) -> Entity {
    let mut entity = typed(EntityKind::EnumDecl, "Color", TypeKind::SignedInteger, "NSInteger");
    entity.is_definition = is_definition;
    entity.children = vec![
        Entity::named(EntityKind::UnexposedAttr, "NS_ENUM"),
        constant("Red", -1, None),
        constant("Green", 2, Some("1 << 1")),
    ];
    entity
}

#[test]
fn enum_declared_twice_yields_one_statement() {
    let config = Config::new();
    let stream = vec![color_enum(false), color_enum(true)];
    let stmts: Vec<Stmt> =
        stream.iter().filter_map(|entity| Stmt::parse(entity, &config).unwrap()).collect();
    assert_eq!(stmts.len(), 1);
    assert_eq!(Stmt::parse(&stream[0], &config), Ok(None));
    assert_eq!(
        stmts[0],
        Stmt::EnumDecl {
            name: Some("Color".to_string()),
            ty: Ty { mode: TyMode::Enum, kind: TypeKind::SignedInteger, name: "NSInteger".to_string() },
            kind: Some(UnexposedMacro::Enum),
            variants: vec![
                ("Red".to_string(), Expr::Signed(-1)),
                ("Green".to_string(), Expr::Symbolic("1 << 1".to_string())),
            ],
        }
    );
}

#[test]
fn forward_declared_enum_is_not_looked_at() {
    let mut entity = Entity::new(EntityKind::EnumDecl);
    entity.children = vec![Entity::new(EntityKind::Other)];
    assert_eq!(Stmt::parse(&entity, &Config::new()), Ok(None));
}

#[test]
fn enum_overrides() {
    let mut config = Config::new();
    config.enum_data.push((
        "Color".to_string(),
        EnumData {
            skipped: false,
            use_value: true,
            constants: vec![("Red".to_string(), ItemData { skipped: true })],
        },
    ));
    match Stmt::parse(&color_enum(true), &config).unwrap().unwrap() {
        Stmt::EnumDecl { variants, .. } => {
            assert_eq!(variants, vec![("Green".to_string(), Expr::Signed(2))]);
        }
        _ => panic!("not an enum"),
    }

    let mut anonymous = color_enum(true);
    anonymous.name = None;
    anonymous.ty = Some(desc(TypeKind::UnsignedInteger, "NSUInteger"));
    anonymous.children = vec![constant("All", -1, None), Entity::new(EntityKind::FlagEnum)];
    match Stmt::parse(&anonymous, &config).unwrap().unwrap() {
        Stmt::EnumDecl { name, kind, variants, .. } => {
            assert_eq!(name, None);
            assert_eq!(kind, Some(UnexposedMacro::Options));
            assert_eq!(variants, vec![("All".to_string(), Expr::Unsigned(u64::MAX))]);
        }
        _ => panic!("not an enum"),
    }
    config.enum_data.push((
        "anonymous".to_string(),
        EnumData { skipped: true, use_value: false, constants: Vec::new() },
    ));
    assert_eq!(Stmt::parse(&anonymous, &config), Ok(None));
}

#[test]
fn enum_kinds_have_to_agree() {
    let config = Config::new();
    let mut entity = color_enum(true);
    entity.children.push(Entity::new(EntityKind::FlagEnum));
    assert_eq!(Stmt::parse(&entity, &config), Err(StructuralError::DifferingEnumKinds));

    let mut agreeing = color_enum(true);
    agreeing.children.push(Entity::named(EntityKind::UnexposedAttr, "NS_ENUM"));
    agreeing.children.push(Entity::named(EntityKind::UnexposedAttr, "NS_REFINED_FOR_SWIFT"));
    agreeing.children.push(Entity::new(EntityKind::UnexposedAttr));
    assert!(Stmt::parse(&agreeing, &config).unwrap().is_some());

    for (name, kind) in [
        ("NS_OPTIONS", UnexposedMacro::Options),
        ("NS_CLOSED_ENUM", UnexposedMacro::ClosedEnum),
        ("NS_ERROR_ENUM", UnexposedMacro::ErrorEnum),
    ] {
        let mut entity = color_enum(true);
        entity.children = vec![Entity::named(EntityKind::UnexposedAttr, name)];
        match Stmt::parse(&entity, &config).unwrap().unwrap() {
            Stmt::EnumDecl { kind: found, .. } => assert_eq!(found, Some(kind)),
            _ => panic!("not an enum"),
        }
    }
}

#[test]
fn enum_needs_type_and_values() {
    let config = Config::new();
    let mut untyped = color_enum(true);
    untyped.ty = None;
    assert_eq!(Stmt::parse(&untyped, &config), Err(StructuralError::MissingType));

    let mut entity = color_enum(true);
    entity.children = vec![Entity::named(EntityKind::EnumConstantDecl, "Red")];
    assert_eq!(Stmt::parse(&entity, &config), Err(StructuralError::MissingValue));
    entity.children = vec![Entity::new(EntityKind::EnumConstantDecl)];
    assert_eq!(Stmt::parse(&entity, &config), Err(StructuralError::MissingName));
    entity.children = vec![Entity::new(EntityKind::FieldDecl)];
    assert_eq!(Stmt::parse(&entity, &config), Err(StructuralError::UnknownChild));
}

fn variable(children: Vec<Entity>) -> Entity {
    let mut entity = typed(EntityKind::VarDecl, "Limit", TypeKind::Other, "NSInteger");
    entity.children = children;
    entity
}

fn expression(text: Option<&str>) -> Entity {
    let mut entity = Entity::new(EntityKind::Expression);
    entity.expression = text.map(|s| s.to_string());
    entity
}

#[test]
fn variable_with_and_without_value() {
    let mut config = Config::new();
    let ty = Ty { mode: TyMode::Static, kind: TypeKind::Other, name: "NSInteger".to_string() };
    assert_eq!(
        Stmt::parse(
            &variable(vec![
                Entity::new(EntityKind::VisibilityAttr),
                Entity::named(EntityKind::TypeRef, "NSInteger"),
                Entity::named(EntityKind::ObjCClassRef, "C"),
                Entity::new(EntityKind::UnexposedAttr),
            ]),
            &config
        ),
        Ok(Some(Stmt::VarDecl { name: "Limit".to_string(), ty: ty.clone(), value: None }))
    );
    assert_eq!(
        Stmt::parse(&variable(vec![expression(Some("10"))]), &config),
        Ok(Some(Stmt::VarDecl {
            name: "Limit".to_string(),
            ty,
            value: Some(Expr::Symbolic("10".to_string())),
        }))
    );
    // an initializer that cannot be represented drops the variable
    assert_eq!(Stmt::parse(&variable(vec![expression(None)]), &config), Ok(None));
    assert_eq!(
        Stmt::parse(&variable(vec![expression(None), expression(Some("1"))]), &config),
        Err(StructuralError::DuplicateValue)
    );
    assert_eq!(
        Stmt::parse(&variable(vec![Entity::named(EntityKind::UnexposedAttr, "NS_ERROR_ENUM")]), &config),
        Err(StructuralError::UnexpectedAttribute)
    );
    assert_eq!(
        Stmt::parse(&variable(vec![Entity::new(EntityKind::ParmDecl)]), &config),
        Err(StructuralError::UnknownChild)
    );
    let mut untyped = variable(vec![]);
    untyped.ty = None;
    assert_eq!(Stmt::parse(&untyped, &config), Err(StructuralError::MissingType));
    assert_eq!(Stmt::parse(&Entity::new(EntityKind::VarDecl), &config), Err(StructuralError::MissingName));
    config.statics.push(("Limit".to_string(), ItemData { skipped: true }));
    assert_eq!(Stmt::parse(&variable(vec![expression(None), expression(None)]), &config), Ok(None));
}

fn function(children: Vec<Entity>) -> Entity {
    let mut entity = Entity::named(EntityKind::FunctionDecl, "compute");
    entity.result_type = Some(desc(TypeKind::Other, "f64"));
    entity.children = children;
    entity
}

#[test]
fn function_parameters_in_order() {
    let mut config = Config::new();
    let mut unnamed = Entity::new(EntityKind::ParmDecl);
    unnamed.ty = Some(desc(TypeKind::Other, "u8"));
    let mut entity = function(vec![
        Entity::named(EntityKind::TypeRef, "T"),
        typed(EntityKind::ParmDecl, "x", TypeKind::Other, "f64"),
        Entity::named(EntityKind::ObjCClassRef, "C"),
        unnamed,
    ]);
    entity.is_inline = true;
    match Stmt::parse(&entity, &config).unwrap().unwrap() {
        Stmt::FnDecl { name, arguments, result_type, body } => {
            assert_eq!(name, "compute");
            assert_eq!(arguments.len(), 2);
            assert_eq!(arguments[0].0, "x");
            assert_eq!(arguments[0].1.mode, TyMode::FnArgument);
            assert_eq!(arguments[1].0, "_");
            assert_eq!(result_type.mode, TyMode::FnReturn);
            assert_eq!(body, Some(()));
        }
        _ => panic!("not a function"),
    }
    entity.is_inline = false;
    match Stmt::parse(&entity, &config).unwrap().unwrap() {
        Stmt::FnDecl { body, .. } => assert_eq!(body, None),
        _ => panic!("not a function"),
    }

    let mut variadic = function(vec![Entity::new(EntityKind::Other)]);
    variadic.is_variadic = true;
    assert_eq!(Stmt::parse(&variadic, &config), Ok(None));

    let mut static_method = function(vec![]);
    static_method.is_static_method = true;
    assert_eq!(Stmt::parse(&static_method, &config), Err(StructuralError::StaticMethod));

    let mut no_result = function(vec![]);
    no_result.result_type = None;
    assert_eq!(Stmt::parse(&no_result, &config), Err(StructuralError::MissingType));
    assert_eq!(
        Stmt::parse(&function(vec![Entity::named(EntityKind::ParmDecl, "x")]), &config),
        Err(StructuralError::MissingType)
    );
    assert_eq!(
        Stmt::parse(&function(vec![Entity::named(EntityKind::ObjCProtocolRef, "P")]), &config),
        Err(StructuralError::UnknownChild)
    );
    assert_eq!(
        Stmt::parse(&function(vec![Entity::named(EntityKind::UnexposedAttr, "NS_OPTIONS")]), &config),
        Err(StructuralError::UnexpectedAttribute)
    );
    assert_eq!(
        Stmt::parse(&Entity::new(EntityKind::FunctionDecl), &config),
        Err(StructuralError::MissingName)
    );
    config.fns.push(("compute".to_string(), ItemData { skipped: true }));
    assert_eq!(Stmt::parse(&static_method, &config), Ok(None));
}

#[test]
fn kinds_that_make_no_statement() {
    let config = Config::new();
    for kind in [EntityKind::ObjCClassRef, EntityKind::ObjCProtocolRef, EntityKind::UnionDecl] {
        assert_eq!(Stmt::parse(&Entity::new(kind), &config), Ok(None));
    }
    for kind in [
        EntityKind::Other,
        EntityKind::FieldDecl,
        EntityKind::ParmDecl,
        EntityKind::Expression,
        EntityKind::ObjCInstanceMethodDecl,
        EntityKind::ObjCPropertyDecl,
        EntityKind::EnumConstantDecl,
        EntityKind::UnexposedAttr,
    ] {
        assert_eq!(Stmt::parse(&Entity::new(kind), &config), Err(StructuralError::UnknownEntity));
    }
}

#[test]
fn first_matching_override_counts() {
    let mut config = Config::new();
    config.fns.push(("compute".to_string(), ItemData { skipped: false }));
    config.fns.push(("compute".to_string(), ItemData { skipped: true }));
    assert!(Stmt::parse(&function(vec![]), &config).unwrap().is_some());
}

#[test]
fn two_runs_over_the_same_entities_compare_equal() {
    let config = Config::new();
    let build = || {
        rooted(vec![
            property("name", "name", Some("setName:")),
            method(EntityKind::ObjCInstanceMethodDecl, "name"),
            method(EntityKind::ObjCInstanceMethodDecl, "setName:"),
            method(EntityKind::ObjCClassMethodDecl, "shared"),
        ])
    };
    let first = Stmt::parse(&build(), &config).unwrap().unwrap();
    let second = Stmt::parse(&build(), &config).unwrap().unwrap();
    assert_eq!(first.compare(&second), Ok(()));
    assert!(first.same(&second));
    assert_eq!(first, second);
}

#[test]
fn every_inconsistency_has_its_sentence() {
    let all = [
        (StructuralError::UnknownEntity, "unknown entity"),
        (StructuralError::UnknownChild, "unknown child"),
        (StructuralError::UnsupportedChild, "unsupported child"),
        (StructuralError::MissingName, "missing name"),
        (StructuralError::MissingType, "missing type"),
        (StructuralError::MissingAvailability, "missing availability"),
        (StructuralError::MissingValue, "missing enum constant value"),
        (StructuralError::MissingSuperclass, "no superclass found"),
        (StructuralError::CategoryClass, "could not find unique category class"),
        (StructuralError::DuplicateProperty, "already existing property"),
        (StructuralError::UnmatchedProperties, "did not properly add methods to properties"),
        (StructuralError::DifferingEnumKinds, "got differing enum kinds"),
        (StructuralError::UnexpectedAttribute, "unexpected attribute"),
        (StructuralError::DuplicateValue, "got variable value twice"),
        (StructuralError::StaticMethod, "unexpected static method"),
    ];
    for (error, sentence) in all {
        assert_eq!(error.message(), sentence);
    }
}

#[test]
fn availability_gathers_the_platforms() {
    let fine = PlatformAvailability { unavailable: false, deprecated: false };
    let gone = PlatformAvailability { unavailable: true, deprecated: false };
    let old = PlatformAvailability { unavailable: false, deprecated: true };
    assert_eq!(Availability::parse(&vec![]), Availability::new());
    assert_eq!(Availability::parse(&vec![fine, fine]), Availability::new());
    assert_eq!(
        Availability::parse(&vec![fine, gone, fine]),
        Availability { unavailable: true, deprecated: false }
    );
    assert_eq!(
        Availability::parse(&vec![old, fine]),
        Availability { unavailable: false, deprecated: true }
    );
    assert_eq!(
        Availability::parse(&vec![old, gone]),
        Availability { unavailable: true, deprecated: true }
    );
}

#[test]
fn kinds_of_types() {
    let to = |is_function: bool, inner: Option<&str>| Some((is_function, inner.map(|s| s.to_string())));
    assert_eq!(type_kind(true, false, false, None), TypeKind::Void);
    // void and the integers come before everything else
    assert_eq!(type_kind(true, true, true, to(true, None)), TypeKind::Void);
    assert_eq!(type_kind(false, true, true, to(true, None)), TypeKind::SignedInteger);
    assert_eq!(type_kind(false, false, true, None), TypeKind::UnsignedInteger);
    assert_eq!(type_kind(false, false, false, None), TypeKind::Other);
    assert_eq!(type_kind(false, false, false, to(true, None)), TypeKind::FunctionPointer);
    assert_eq!(type_kind(false, false, false, to(true, Some("NSError"))), TypeKind::FunctionPointer);
    assert_eq!(type_kind(false, false, false, to(false, Some("NSError"))), TypeKind::ErrorPointer);
    assert_eq!(type_kind(false, false, false, to(false, Some("NSErrors"))), TypeKind::Other);
    assert_eq!(type_kind(false, false, false, to(false, None)), TypeKind::Other);
}

#[test]
fn member_count_after_merging() {
    // two properties with three accessors between them, and two other methods
    let mut variadic = method(EntityKind::ObjCInstanceMethodDecl, "log:");
    variadic.is_variadic = true;
    let entity = rooted(vec![
        property("name", "name", Some("setName:")),
        property("size", "size", None),
        method(EntityKind::ObjCInstanceMethodDecl, "size"),
        method(EntityKind::ObjCInstanceMethodDecl, "reset"),
        method(EntityKind::ObjCInstanceMethodDecl, "setName:"),
        method(EntityKind::ObjCInstanceMethodDecl, "name"),
        method(EntityKind::ObjCClassMethodDecl, "name"),
        variadic,
    ]);
    let stmt = Stmt::parse(&entity, &Config::new()).unwrap().unwrap();
    let members = members_of(&stmt);
    assert_eq!(members.len(), 4);
    assert!(matches!(&members[0], MethodOrProperty::Property(p) if p.name == "name"));
    assert!(matches!(&members[1], MethodOrProperty::Property(p) if p.name == "size"));
    assert!(matches!(&members[2], MethodOrProperty::Method(m) if m.selector == "reset"));
    assert!(matches!(&members[3], MethodOrProperty::Method(m) if m.selector == "name" && m.is_class));
}
