use avm_core::either::Either;
use avm_core::error::Error;
use avm_core::interner::Interner;
use avm_core::multiname::Multiname;
use avm_core::namespace::Namespace;
use avm_core::qname::AbcMultiname;
use avm_core::qname::QName;

#[test]
fn qualified_name_splits_at_last_double_colon() {
    let mut interner = Interner::new();
    let name = QName::from_qualified_name("flash.display::Sprite", &mut interner);
    assert_eq!(interner.get(name.local_name()), "Sprite");
    assert_eq!(interner.get(name.namespace().as_uri()), "flash.display");
    assert!(matches!(name.namespace(), Namespace::Package(_)));
}

#[test]
fn qualified_name_keeps_separators_inside_the_namespace() {
    let mut interner = Interner::new();
    let name = QName::from_qualified_name("a::b::c", &mut interner);
    assert_eq!(interner.get(name.namespace().as_uri()), "a::b");
    assert_eq!(interner.get(name.local_name()), "c");
    let odd = QName::from_qualified_name("a:::b", &mut interner);
    assert_eq!(interner.get(odd.namespace().as_uri()), "a:");
    assert_eq!(interner.get(odd.local_name()), "b");
}

#[test]
fn qualified_name_falls_back_to_the_last_dot() {
    let mut interner = Interner::new();
    let name = QName::from_qualified_name("flash.display.Sprite", &mut interner);
    assert_eq!(interner.get(name.namespace().as_uri()), "flash.display");
    assert_eq!(interner.get(name.local_name()), "Sprite");
}

#[test]
fn qualified_name_prefers_double_colon_over_dot() {
    let mut interner = Interner::new();
    let name = QName::from_qualified_name("a.b::c.d", &mut interner);
    assert_eq!(interner.get(name.namespace().as_uri()), "a.b");
    assert_eq!(interner.get(name.local_name()), "c.d");
}

#[test]
fn name_without_separator_is_public() {
    let mut interner = Interner::new();
    let name = QName::from_qualified_name("Object", &mut interner);
    assert!(name.namespace().is_public());
    assert_eq!(name.namespace(), Namespace::public());
    assert_eq!(interner.get(name.local_name()), "Object");
    let empty = QName::from_qualified_name("", &mut interner);
    assert!(empty.namespace().is_public());
    assert_eq!(empty.local_name(), 0);
}

#[test]
fn qualified_names_are_equal_only_with_both_parts() {
    let mut interner = Interner::new();
    let a = QName::from_qualified_name("p::x", &mut interner);
    let b = QName::from_qualified_name("p::x", &mut interner);
    let c = QName::from_qualified_name("q::x", &mut interner);
    let d = QName::from_qualified_name("p::y", &mut interner);
    assert_eq!(a, b);
    assert_ne!(a, c);
    assert_ne!(a, d);
    let private = QName::new(Namespace::private(a.namespace().as_uri()), a.local_name());
    assert_ne!(a, private);
}

#[test]
fn rendering_uses_colons_or_dot_or_the_bare_name() {
    let mut interner = Interner::new();
    let name = QName::from_qualified_name("flash.display::Sprite", &mut interner);
    assert_eq!(name.to_qualified_name(&interner), "flash.display::Sprite");
    assert_eq!(name.to_qualified_name_err_message(&interner), "flash.display.Sprite");
    assert_eq!(name.as_uri(&interner), "flash.display::Sprite");
    assert_eq!(name.to_display_string(&interner), "flash.display::Sprite");
    match name.to_qualified_name_no_mc(&interner) {
        Either::Right(s) => assert_eq!(s, "flash.display::Sprite"),
        Either::Left(_) => panic!("a name with a package needs a new string"),
    }
    let bare = QName::from_qualified_name("Sprite", &mut interner);
    assert_eq!(bare.to_qualified_name(&interner), "Sprite");
    assert_eq!(bare.to_qualified_name_err_message(&interner), "Sprite");
    assert_eq!(bare.as_uri(&interner), "Sprite");
    match bare.to_qualified_name_no_mc(&interner) {
        Either::Left(a) => assert_eq!(a, bare.local_name()),
        Either::Right(_) => panic!("a public name is its own local name"),
    }
}

#[test]
fn any_namespace_renders_as_star() {
    let mut interner = Interner::new();
    let local = interner.intern("x");
    let name = QName::new(Namespace::Any, local);
    assert_eq!(name.as_uri(&interner), "*::x");
    assert_eq!(Namespace::Any.as_uri_opt(), None);
    assert_eq!(Namespace::Any.as_uri(), 0);
    assert!(Namespace::Any.is_any());
}

#[test]
fn interner_gives_one_atom_per_string() {
    let mut interner = Interner::new();
    assert_eq!(interner.len(), 1);
    assert_eq!(interner.lookup(""), Some(0));
    let a = interner.intern("alpha");
    let b = interner.intern("beta");
    assert_ne!(a, b);
    assert_eq!(interner.intern("alpha"), a);
    assert_eq!(interner.len(), 3);
    assert_eq!(interner.lookup("beta"), Some(b));
    assert_eq!(interner.lookup("gamma"), None);
    assert_eq!(interner.get(a), "alpha");
    assert_eq!(interner.resolve(b), "beta");
    assert_eq!(interner.resolve(99), "");
}

#[test]
fn multiname_knows_its_candidates() {
    let mut interner = Interner::new();
    let x = interner.intern("x");
    let pkg = interner.intern("pkg");
    let single = Multiname::new(Namespace::public(), x);
    assert!(single.contains_public_namespace());
    assert_eq!(single.local_name(), Some(x));
    assert!(single.contains_name(QName::new(Namespace::public(), x)));
    assert!(!single.contains_name(QName::new(Namespace::package(pkg), x)));
    let multi = Multiname::with_namespaces(vec![Namespace::private(pkg), Namespace::package(pkg)], Some(x));
    assert!(!multi.contains_public_namespace());
    assert!(multi.contains_name(QName::new(Namespace::package(pkg), x)));
    assert!(!multi.contains_name(QName::new(Namespace::package(pkg), pkg)));
    let nameless = Multiname::with_namespaces(vec![Namespace::public()], None);
    assert!(nameless.contains_public_namespace());
    assert!(!nameless.contains_name(QName::new(Namespace::public(), x)));
    let copy = multi.duplicate();
    assert_eq!(copy.ns, multi.ns);
    assert_eq!(copy.name, multi.name);
}

#[test]
fn pool_names_are_checked() {
    let pool = vec![
        AbcMultiname::QName { namespace: Namespace::public(), name: 7 },
        AbcMultiname::Other,
    ];
    assert_eq!(QName::from_abc_multiname(&pool, 0), Err(Error::TraitNameIndexZero));
    assert_eq!(QName::from_abc_multiname(&pool, 1), Ok(QName::new(Namespace::public(), 7)));
    assert_eq!(QName::from_abc_multiname(&pool, 2), Err(Error::NotAQName));
    assert_eq!(
        QName::from_abc_multiname(&pool, 3),
        Err(Error::UnknownMultiname { index: 3 })
    );
}
