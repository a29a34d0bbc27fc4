use gir::events::{Attribute, XmlEventKind, XmlItem};
use gir::library::{Library, Type, TypeId, INTERNAL_NAMESPACE};

fn start(name: &str, pairs: &[(&str, &str)]) -> XmlItem {
    let attributes = pairs
        .iter()
        .map(|(n, v)| Attribute { name: n.to_string(), value: v.to_string() })
        .collect();
    XmlItem { event: XmlEventKind::StartElement { name: name.to_string(), namespace: None, attributes }, row: 0, column: 0 }
}

fn end() -> XmlItem {
    XmlItem { event: XmlEventKind::EndElement, row: 0, column: 0 }
}

#[test]
fn get_namespace_twice_gives_the_same_id() {
    let mut lib = Library::new();
    let a = lib.get_namespace("Gtk");
    let n = lib.namespaces.len();
    let b = lib.get_namespace("Gtk");
    assert_eq!(a, b);
    assert_eq!(a, 1);
    assert_eq!(lib.namespaces.len(), n);
    assert_eq!(lib.find_namespace("Gtk"), Some(1));
    assert!(lib.has_namespace("Gtk"));
    assert!(!lib.has_namespace("Gdk"));
}

#[test]
fn add_type_then_lookup_gives_it_back() {
    let mut lib = Library::new();
    let ns = lib.get_namespace("Foo");
    let declared = lib.get_type(ns, "Widget");
    assert!(lib.namespaces[ns].types[declared.id].typ.is_none());
    let t = lib.add_type(ns, "Widget", Type::Fundamental);
    // The definition fills the entry that the earlier reference declared.
    assert_eq!(t, declared);
    assert_eq!(lib.find_type(ns, "Widget"), Some(t.id));
    assert!(matches!(lib.namespaces[ns].types[t.id].typ, Some(Type::Fundamental)));
    let n = lib.namespaces[ns].types.len();
    assert_eq!(lib.get_type(ns, "Widget"), t);
    assert_eq!(lib.namespaces[ns].types.len(), n);
}

#[test]
fn add_type_leaves_other_entries_alone() {
    let mut lib = Library::new();
    let ns = lib.get_namespace("Foo");
    let a = lib.add_type(ns, "A", Type::Fundamental);
    lib.add_type(ns, "B", Type::List(a));
    lib.add_type(ns, "B", Type::SList(a));
    assert!(matches!(lib.namespaces[ns].types[a.id].typ, Some(Type::Fundamental)));
    assert_eq!(lib.namespaces[ns].types.len(), 2);
    assert!(matches!(lib.namespaces[ns].types[1].typ, Some(Type::SList(_))));
}

#[test]
fn get_type_twice_gives_the_same_type() {
    let mut lib = Library::new();
    let ns = lib.get_namespace("Gtk");
    for name in ["Gdk.Window", "Widget", "gint", "GLib.List"] {
        let a = lib.get_type(ns, name);
        let before = lib.namespaces.len();
        let count: usize = lib.namespaces.iter().map(|n| n.types.len()).sum();
        let b = lib.get_type(ns, name);
        assert_eq!(a, b);
        assert_eq!(lib.namespaces.len(), before);
        assert_eq!(lib.namespaces.iter().map(|n| n.types.len()).sum::<usize>(), count);
    }
    assert_eq!(lib.get_type(ns, "gint"), TypeId { ns_id: INTERNAL_NAMESPACE, id: 6 });
}

#[test]
fn containers_are_shared() {
    let mut lib = Library::new();
    let gint = TypeId { ns_id: 0, id: 6 };
    let a = Type::container(&mut lib, "array", vec![gint]).unwrap();
    let n = lib.namespaces[0].types.len();
    let b = Type::container(&mut lib, "array", vec![gint]).unwrap();
    assert_eq!(a, b);
    assert_eq!(lib.namespaces[0].types.len(), n);
    assert_eq!(lib.namespaces[0].types[a.id].name, "[#0.6]");
    let l = Type::container(&mut lib, "GLib.List", vec![gint]).unwrap();
    assert_ne!(a, l);
    assert_eq!(lib.namespaces[0].types[l.id].name, "List(#0.6)");
    let s = Type::container(&mut lib, "GLib.SList", vec![TypeId { ns_id: 12, id: 345 }]).unwrap();
    assert_eq!(lib.namespaces[0].types[s.id].name, "SList(#12.345)");
    assert!(Type::container(&mut lib, "array", vec![gint, gint]).is_none());
    assert!(Type::container(&mut lib, "GLib.Array", vec![gint]).is_none());
}

#[test]
fn reading_keeps_namespaces_and_defines_what_it_reads() {
    let mut lib = Library::new();
    let before: Vec<String> = lib.namespaces.iter().map(|n| n.name.clone()).collect();
    // <namespace name="Foo"><class name="W"><field/></class></namespace>
    let events = vec![start("class", &[("name", "W")]), start("field", &[]), end(), end(), end()];
    let attrs = vec![Attribute { name: "name".to_string(), value: "Foo".to_string() }];
    let next = lib.read_namespace(&events, 0, &attrs, &mut Vec::new()).unwrap();
    assert_eq!(next, 5);
    for (i, name) in before.iter().enumerate() {
        assert_eq!(&lib.namespaces[i].name, name);
    }
    let ns = lib.find_namespace("Foo").unwrap();
    let id = lib.find_type(ns, "W").unwrap();
    assert!(matches!(lib.namespaces[ns].types[id].typ, Some(Type::Class(_))));
}
