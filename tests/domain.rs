use avm2_domain::{
    apply, split_vector_name, Avm2, Class, Domain, Error, Multiname, Namespace, QName, Value,
    DEFAULT_MEMORY_LENGTH, UNDEFINED_VARIABLE,
};

fn public_name(local: &str) -> QName {
    QName::new(Namespace::public(), local.to_string())
}

fn public_multiname(local: &str) -> Multiname {
    Multiname {
        namespaces: vec![Namespace::public()],
        local_name: Some(local.to_string()),
        param: None,
    }
}

fn script_of(avm: &Avm2, d: Domain, local: &str) -> Option<avm2_domain::Script> {
    d.get_defining_script(avm, &public_multiname(local))
        .unwrap()
        .map(|(_, s)| s)
}

#[test]
fn first_export_wins() {
    let mut avm = Avm2::new();
    let root = Domain::uninitialized_domain(&mut avm, None);
    let mut d = Domain::movie_domain(&mut avm, root);
    let s1 = avm.new_script();
    let s2 = avm.new_script();
    d.export_definition(public_name("N"), s1, &mut avm);
    d.export_definition(public_name("N"), s2, &mut avm);
    assert_eq!(script_of(&avm, d, "N"), Some(s1));
    assert_eq!(d.get_defined_names(&avm).len(), 1);
}

#[test]
fn export_ignored_when_ancestor_defines() {
    let mut avm = Avm2::new();
    let mut root = Domain::uninitialized_domain(&mut avm, None);
    let mut child = Domain::movie_domain(&mut avm, root);
    let s1 = avm.new_script();
    let s2 = avm.new_script();
    root.export_definition(public_name("N"), s1, &mut avm);
    child.export_definition(public_name("N"), s2, &mut avm);
    assert!(child.get_defined_names(&avm).is_empty());
    assert_eq!(script_of(&avm, child, "N"), Some(s1));
}

#[test]
fn ancestor_shadowing() {
    let mut avm = Avm2::new();
    let mut parent = Domain::uninitialized_domain(&mut avm, None);
    let mut child = Domain::movie_domain(&mut avm, parent);
    let sp = avm.new_script();
    let sc = avm.new_script();
    parent.export_definition(public_name("OnlyParent"), sp, &mut avm);
    // the child defines "Both" before the parent does, so both keep a definition
    child.export_definition(public_name("Both"), sc, &mut avm);
    parent.export_definition(public_name("Both"), sp, &mut avm);
    assert_eq!(script_of(&avm, child, "OnlyParent"), Some(sp));
    assert_eq!(script_of(&avm, child, "Both"), Some(sc));
    assert_eq!(script_of(&avm, parent, "Both"), Some(sp));
}

#[test]
fn undefined_name_is_not_found() {
    let mut avm = Avm2::new();
    let root = Domain::uninitialized_domain(&mut avm, None);
    let a = Domain::movie_domain(&mut avm, root);
    let b = Domain::movie_domain(&mut avm, a);
    let c = Domain::movie_domain(&mut avm, b);
    assert!(matches!(c.get_defining_script(&avm, &public_multiname("Missing")), Ok(None)));
    assert!(!c.has_definition(&avm, &public_name("Missing")));
    match c.find_defining_script(&avm, &public_multiname("Missing")) {
        Err(Error::Reference { code, name }) => {
            assert_eq!(code, UNDEFINED_VARIABLE);
            assert_eq!(code, 1065);
            assert_eq!(name, "Missing");
        }
        _ => panic!("expected a reference error"),
    }
    let unnamed = Multiname { namespaces: vec![Namespace::public()], local_name: None, param: None };
    assert!(matches!(c.find_defining_script(&avm, &unnamed), Err(Error::UnnamedMultiname)));
    assert_eq!(c.parent_domain(&avm), Some(b));
    assert!(root.is_playerglobals_domain(&avm));
    assert!(!c.is_playerglobals_domain(&avm));
    assert_eq!(root.parent_domain(&avm), None);
}

#[test]
fn namespace_set_lookup_returns_matching_namespace() {
    let mut avm = Avm2::new();
    let root = Domain::uninitialized_domain(&mut avm, None);
    let mut d = Domain::movie_domain(&mut avm, root);
    let s = avm.new_script();
    d.export_definition(QName::new(Namespace::package("flash.display"), "Sprite".to_string()), s, &mut avm);
    let m = Multiname {
        namespaces: vec![Namespace::public(), Namespace::package("flash.display")],
        local_name: Some("Sprite".to_string()),
        param: None,
    };
    let (q, found) = d.get_defining_script(&avm, &m).unwrap().unwrap();
    assert_eq!(found, s);
    assert_eq!(q.namespace.uri, "flash.display");
    assert_eq!(q.local_name, "Sprite");
    assert!(matches!(d.get_defining_script(&avm, &public_multiname("Sprite")), Ok(None)));
}

#[test]
fn specialization_is_idempotent() {
    let mut avm = Avm2::new();
    let vector = avm.new_class(QName::new(Namespace::package("__AS3__.vec"), "Vector".to_string()), true);
    let inner = avm.new_class(public_name("Inner"), false);
    let first = Class::with_type_param(vector, inner, &mut avm);
    let second = Class::with_type_param(vector, inner, &mut avm);
    assert_eq!(first, second);
    assert_ne!(first, vector);
    let name = avm.name_of_class(first);
    assert_eq!(name.local_name, "Vector.<Inner>");
    assert_eq!(name.namespace.uri, "__AS3__.vec");
    assert_eq!(avm.param_of_class(first), Some(inner));
    assert!(!avm.class_is_generic(first));
}

#[test]
fn apply_type_arguments() {
    let mut avm = Avm2::new();
    let vector = avm.new_class(public_name("Vector"), true);
    let plain = avm.new_class(public_name("Plain"), false);
    assert!(matches!(apply(&mut avm, &Value::Class(vector), &Value::Null), Ok(Value::Class(c)) if c == vector));
    assert!(matches!(apply(&mut avm, &Value::Class(plain), &Value::Class(vector)), Err(Error::NotGeneric)));
    assert!(matches!(apply(&mut avm, &Value::Integer(3), &Value::Class(plain)), Err(Error::NotGeneric)));
    assert!(matches!(apply(&mut avm, &Value::Class(vector), &Value::Integer(1)), Err(Error::BadTypeArgument)));
    let made = Class::with_type_param(vector, plain, &mut avm);
    assert!(matches!(apply(&mut avm, &Value::Class(vector), &Value::Class(plain)), Ok(Value::Class(c)) if c == made));
}

#[test]
fn get_class_with_type_parameter() {
    let mut avm = Avm2::new();
    let root = Domain::uninitialized_domain(&mut avm, None);
    let movie = Domain::movie_domain(&mut avm, root);
    let vector = avm.new_class(public_name("Vector"), true);
    let inner = avm.new_class(public_name("Inner"), false);
    root.export_class(vector, &mut avm);
    movie.export_class(inner, &mut avm);
    assert!(movie.has_class(&avm, &public_name("Vector")));
    assert!(!root.has_class(&avm, &public_name("Inner")));

    let mut m = public_multiname("Vector");
    m.param = Some(Box::new(public_multiname("Inner")));
    let got = movie.get_class(&m, &mut avm).unwrap().unwrap();
    assert_eq!(got, Class::with_type_param(vector, inner, &mut avm));

    let mut any = public_multiname("Vector");
    any.param = Some(Box::new(Multiname { namespaces: vec![], local_name: None, param: None }));
    assert_eq!(movie.get_class(&any, &mut avm).unwrap(), Some(vector));

    let mut missing = public_multiname("Vector");
    missing.param = Some(Box::new(public_multiname("Nowhere")));
    assert_eq!(movie.get_class(&missing, &mut avm).unwrap(), None);
    assert_eq!(movie.get_class(&public_multiname("Nowhere"), &mut avm).unwrap(), None);
}

fn vector_setup() -> (Avm2, Domain, Class, Class) {
    let mut avm = Avm2::new();
    let root = Domain::uninitialized_domain(&mut avm, None);
    let mut movie = Domain::movie_domain(&mut avm, root);
    let vector_name = QName::from_qualified_name("__AS3__.vec::Vector");
    let vector = avm.new_class(vector_name.copied(), true);
    let inner = avm.new_class(public_name("Inner"), false);
    let script = avm.new_script();
    script.define_global(&mut avm, vector_name.copied(), Value::Class(vector));
    script.define_global(&mut avm, public_name("Inner"), Value::Class(inner));
    movie.export_definition(vector_name, script, &mut avm);
    movie.export_definition(public_name("Inner"), script, &mut avm);
    (avm, movie, vector, inner)
}

#[test]
fn vector_desugaring() {
    let (mut avm, movie, vector, inner) = vector_setup();
    let expected = Class::with_type_param(vector, inner, &mut avm);
    let short = movie.get_defined_value_handling_vector(&mut avm, "Vector.<Inner>");
    assert!(matches!(short, Ok(Value::Class(c)) if c == expected));
    let long = movie.get_defined_value_handling_vector(&mut avm, "__AS3__.vec::Vector.<Inner>");
    assert!(matches!(long, Ok(Value::Class(c)) if c == expected));
    let base = movie.get_defined_value(&avm, &QName::from_qualified_name("__AS3__.vec::Vector"));
    assert!(matches!(base, Ok(Value::Class(c)) if c == vector));
}

#[test]
fn plain_vector_is_not_desugared() {
    let (mut avm, movie, _vector, _inner) = vector_setup();
    match movie.get_defined_value_handling_vector(&mut avm, "Vector") {
        Err(Error::Reference { code, name }) => {
            assert_eq!(code, 1065);
            assert_eq!(name, "Vector");
        }
        _ => panic!("expected a reference error"),
    }
    let inner = movie.get_defined_value_handling_vector(&mut avm, "Inner");
    assert!(matches!(inner, Ok(Value::Class(_))));
}

#[test]
fn vector_of_undefined_type_is_reference_error() {
    let (mut avm, movie, _vector, _inner) = vector_setup();
    match movie.get_defined_value_handling_vector(&mut avm, "Vector.<Nothing>") {
        Err(Error::Reference { name, .. }) => assert_eq!(name, "Nothing"),
        _ => panic!("expected a reference error"),
    }
}

#[test]
fn defined_value_without_global_is_undefined() {
    let mut avm = Avm2::new();
    let root = Domain::uninitialized_domain(&mut avm, None);
    let mut movie = Domain::movie_domain(&mut avm, root);
    let script = avm.new_script();
    movie.export_definition(public_name("Late"), script, &mut avm);
    assert!(matches!(movie.get_defined_value(&avm, &public_name("Late")), Ok(Value::Undefined)));
    script.define_global(&mut avm, public_name("Late"), Value::Integer(7));
    assert!(matches!(movie.get_defined_value(&avm, &public_name("Late")), Ok(Value::Integer(7))));
    assert!(matches!(script.global_value(&avm, &public_name("Other")), Value::Undefined));
}

#[test]
fn defined_names_in_export_order() {
    let mut avm = Avm2::new();
    let mut root = Domain::uninitialized_domain(&mut avm, None);
    let s = avm.new_script();
    root.export_definition(public_name("B"), s, &mut avm);
    root.export_definition(QName::new(Namespace::package("p"), "A".to_string()), s, &mut avm);
    root.export_definition(public_name("C"), s, &mut avm);
    let names: Vec<(String, String)> = root
        .get_defined_names(&avm)
        .into_iter()
        .map(|q| (q.namespace.uri, q.local_name))
        .collect();
    assert_eq!(
        names,
        vec![
            (String::new(), "B".to_string()),
            ("p".to_string(), "A".to_string()),
            (String::new(), "C".to_string())
        ]
    );
}

#[test]
fn domain_memory_lifecycle() {
    let mut avm = Avm2::new();
    let root = Domain::uninitialized_domain(&mut avm, None);
    let movie = Domain::movie_domain(&mut avm, root);
    assert_eq!(movie.domain_memory(&avm).len(), DEFAULT_MEMORY_LENGTH);
    assert_eq!(DEFAULT_MEMORY_LENGTH, 1024);
    assert_eq!(movie.domain_memory(&avm).read_u8(1023).unwrap(), 0);

    root.init_default_domain_memory(&mut avm);
    assert_eq!(root.domain_memory(&avm).len(), 1024);

    movie.domain_memory_mut(&mut avm).write_u32(1020, 0xA1B2_C3D4).unwrap();
    assert_eq!(movie.domain_memory(&avm).read_u8(1023).unwrap(), 0xA1);
    assert!(movie.domain_memory_mut(&mut avm).write_u8(1024, 1).is_err());

    let mut custom = avm2_domain::ByteArray::with_length(16);
    custom.write_u8(3, 9).unwrap();
    root.set_domain_memory(&mut avm, custom);
    root.init_default_domain_memory(&mut avm);
    assert_eq!(root.domain_memory(&avm).len(), 16);
    assert_eq!(root.domain_memory(&avm).read_u8(3).unwrap(), 9);
}

#[test]
fn scenario_nearest_definition_wins() {
    let mut avm = Avm2::new();
    let root = Domain::uninitialized_domain(&mut avm, None);
    let movie = Domain::movie_domain(&mut avm, root);
    let grandchild = Domain::movie_domain(&mut avm, movie);
    let root_foo = avm.new_class(public_name("Foo"), false);
    let movie_foo = avm.new_class(public_name("Foo"), false);
    root.export_class(root_foo, &mut avm);
    assert_eq!(movie.get_class(&public_multiname("Foo"), &mut avm).unwrap(), Some(root_foo));
    // an ancestor already exports `Foo`: the later export into `movie` is ignored
    movie.export_class(movie_foo, &mut avm);
    assert_eq!(movie.get_class(&public_multiname("Foo"), &mut avm).unwrap(), Some(root_foo));
    assert_eq!(grandchild.get_class(&public_multiname("Foo"), &mut avm).unwrap(), Some(root_foo));
    assert_eq!(root.get_class(&public_multiname("Foo"), &mut avm).unwrap(), Some(root_foo));
}

#[test]
fn scenario_child_definition_shadows_root() {
    let mut avm = Avm2::new();
    let root = Domain::uninitialized_domain(&mut avm, None);
    let movie = Domain::movie_domain(&mut avm, root);
    let grandchild = Domain::movie_domain(&mut avm, movie);
    let root_foo = avm.new_class(public_name("Foo"), false);
    let movie_foo = avm.new_class(public_name("Foo"), false);
    movie.export_class(movie_foo, &mut avm);
    root.export_class(root_foo, &mut avm);
    assert_eq!(movie.get_class(&public_multiname("Foo"), &mut avm).unwrap(), Some(movie_foo));
    assert_eq!(grandchild.get_class(&public_multiname("Foo"), &mut avm).unwrap(), Some(movie_foo));
    assert_eq!(root.get_class(&public_multiname("Foo"), &mut avm).unwrap(), Some(root_foo));
}

#[test]
fn qualified_name_parsing() {
    let q = QName::from_qualified_name("flash.display::Sprite");
    assert_eq!((q.namespace.uri.as_str(), q.local_name.as_str()), ("flash.display", "Sprite"));
    let q = QName::from_qualified_name("flash.display.Sprite");
    assert_eq!((q.namespace.uri.as_str(), q.local_name.as_str()), ("flash.display", "Sprite"));
    let q = QName::from_qualified_name("Foo");
    assert_eq!((q.namespace.uri.as_str(), q.local_name.as_str()), ("", "Foo"));
    let q = QName::from_qualified_name("a::b::c");
    assert_eq!((q.namespace.uri.as_str(), q.local_name.as_str()), ("a::b", "c"));
}

#[test]
fn vector_name_splitting() {
    assert_eq!(split_vector_name("Vector.<int>"), Some("int".to_string()));
    assert_eq!(
        split_vector_name("__AS3__.vec::Vector.<flash.display.Sprite>"),
        Some("flash.display.Sprite".to_string())
    );
    assert_eq!(split_vector_name("Vector.<Vector.<int>>"), Some("Vector.<int>".to_string()));
    assert_eq!(split_vector_name("Vector.<>"), Some(String::new()));
    assert_eq!(split_vector_name("Vector"), None);
    assert_eq!(split_vector_name("Vector.<int"), None);
    assert_eq!(split_vector_name("MyVector.<int>"), None);
}
