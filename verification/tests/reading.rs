use gir::document::{gir_file_name, DocumentStop};
use gir::events::{Attribute, MissingAttribute, ParseError, ParseErrorKind, XmlEventKind, XmlItem};
use gir::library::{Library, Transfer, Type, TypeId, INTERNAL_NAMESPACE};
use gir::parser::ignore_element;
use gir::xml_input::read_events;

const CORE: &str = "http://www.gtk.org/introspection/core/1.0";

fn attrs(pairs: &[(&str, &str)]) -> Vec<Attribute> {
    pairs
        .iter()
        .map(|(n, v)| Attribute { name: n.to_string(), value: v.to_string() })
        .collect()
}

fn start(name: &str, pairs: &[(&str, &str)]) -> XmlItem {
    XmlItem {
        event: XmlEventKind::StartElement { name: name.to_string(), namespace: None, attributes: attrs(pairs) },
        row: 0,
        column: 0,
    }
}

fn end() -> XmlItem {
    XmlItem { event: XmlEventKind::EndElement, row: 0, column: 0 }
}

/// Gives each event the row of its index, so that error positions name events.
fn numbered(mut events: Vec<XmlItem>) -> Vec<XmlItem> {
    for (i, e) in events.iter_mut().enumerate() {
        e.row = i as u64;
        e.column = 7;
    }
    events
}

fn wrap(body: &str) -> String {
    format!("<repository xmlns=\"{}\" xmlns:c=\"http://www.gtk.org/introspection/c/1.0\" xmlns:glib=\"http://www.gtk.org/introspection/glib/1.0\">{}</repository>", CORE, body)
}

fn read_text(lib: &mut Library, text: &str) -> Result<DocumentStop, ParseError> {
    let events = read_events(text.as_bytes());
    let mut notices = Vec::new();
    lib.read_document(&events, &mut notices)
}

fn namespace<'a>(lib: &'a Library, name: &str) -> &'a gir::library::Namespace {
    let id = lib.find_namespace(name).expect("namespace");
    &lib.namespaces[id]
}

fn type_of<'a>(lib: &'a Library, ns: &str, name: &str) -> &'a Type {
    let ns_id = lib.find_namespace(ns).expect("namespace");
    let id = lib.find_type(ns_id, name).expect("type");
    lib.namespaces[ns_id].types[id].typ.as_ref().expect("defined")
}

fn expect_error(r: Result<DocumentStop, ParseError>) -> ParseError {
    match r {
        Err(e) => e,
        Ok(_) => panic!("reading should fail"),
    }
}

#[test]
fn new_library_knows_the_fundamental_types() {
    let lib = Library::new();
    assert_eq!(lib.namespaces.len(), 1);
    assert_eq!(lib.namespaces[0].name, "*");
    assert_eq!(lib.namespaces[0].types.len(), 28);
    assert_eq!(lib.find_type(INTERNAL_NAMESPACE, "gint"), Some(6));
    assert_eq!(lib.find_type(INTERNAL_NAMESPACE, "varargs"), Some(27));
    assert!(matches!(lib.namespaces[0].types[0].typ, Some(Type::Fundamental)));
}

#[test]
fn transfer_modes_by_name() {
    assert_eq!(Transfer::by_name("none"), Some(Transfer::Nothing));
    assert_eq!(Transfer::by_name("container"), Some(Transfer::Container));
    assert_eq!(Transfer::by_name("full"), Some(Transfer::Full));
    assert_eq!(Transfer::by_name("floating"), None);
}

#[test]
fn file_name_of_a_library() {
    assert_eq!(gir_file_name("GLib-2.0"), "GLib-2.0.gir");
}

#[test]
fn reads_a_class_with_methods() {
    let mut lib = Library::new();
    let text = wrap(
        "<namespace name=\"Foo\" version=\"1.0\">\
           <class name=\"Widget\" c:type=\"FooWidget\" glib:type-name=\"FooWidget\">\
             <doc>A widget.</doc>\
             <method name=\"show\" c:identifier=\"foo_widget_show\">\
               <return-value transfer-ownership=\"none\"><type name=\"none\"/></return-value>\
               <parameters>\
                 <instance-parameter name=\"self\"><type name=\"Widget\"/></instance-parameter>\
                 <parameter name=\"count\" transfer-ownership=\"full\"><type name=\"gint\"/></parameter>\
               </parameters>\
             </method>\
             <property name=\"visible\"><type name=\"gboolean\"/></property>\
           </class>\
         </namespace>",
    );
    let r = read_text(&mut lib, &text);
    assert!(matches!(r, Ok(DocumentStop::Finished)), "{:?}", r);
    match type_of(&lib, "Foo", "Widget") {
        Type::Class(c) => {
            assert_eq!(c.name, "FooWidget");
            assert_eq!(c.functions.len(), 1);
            let f = &c.functions[0];
            assert_eq!(f.name, "show");
            assert_eq!(f.c_identifier, "foo_widget_show");
            assert_eq!(f.parameters.len(), 2);
            assert_eq!(f.parameters[0].name, "self");
            assert_eq!(f.parameters[1].name, "count");
            assert_eq!(f.parameters[1].transfer, Transfer::Full);
            // `gint` resolves to the fundamental type.
            assert_eq!(f.parameters[1].typ, TypeId { ns_id: INTERNAL_NAMESPACE, id: 6 });
            // `Widget` resolves to the class itself.
            let foo = lib.find_namespace("Foo").unwrap();
            assert_eq!(f.parameters[0].typ, TypeId { ns_id: foo, id: lib.find_type(foo, "Widget").unwrap() });
            assert_eq!(f.ret.transfer, Transfer::Nothing);
            assert_eq!(f.ret.typ, TypeId { ns_id: INTERNAL_NAMESPACE, id: 0 });
        }
        _ => panic!("expected a class"),
    }
}

#[test]
fn reads_enumerations_bitfields_and_members() {
    let mut lib = Library::new();
    let text = wrap(
        "<namespace name=\"Foo\">\
           <enumeration name=\"Mode\">\
             <member name=\"on\" value=\"1\" c:identifier=\"FOO_MODE_ON\"/>\
             <member name=\"off\" value=\"0\"><doc>Off.</doc></member>\
           </enumeration>\
           <bitfield name=\"Flags\" glib:type-name=\"FooFlags\">\
             <member name=\"a\" value=\"1\"/>\
           </bitfield>\
         </namespace>",
    );
    assert!(matches!(read_text(&mut lib, &text), Ok(DocumentStop::Finished)));
    match type_of(&lib, "Foo", "Mode") {
        Type::Enumeration(e) => {
            assert_eq!(e.name, "Mode");
            assert_eq!(e.members.len(), 2);
            assert_eq!(e.members[0].c_identifier, "FOO_MODE_ON");
            assert_eq!(e.members[1].name, "off");
            assert_eq!(e.members[1].value, "0");
            // Without an identifier, the member's name stands for it.
            assert_eq!(e.members[1].c_identifier, "off");
        }
        _ => panic!("expected an enumeration"),
    }
    match type_of(&lib, "Foo", "Flags") {
        Type::Bitfield(b) => {
            assert_eq!(b.name, "FooFlags");
            assert_eq!(b.members.len(), 1);
        }
        _ => panic!("expected a bitfield"),
    }
}

#[test]
fn reads_unions_records_interfaces_callbacks_aliases_constants_functions() {
    let mut lib = Library::new();
    let text = wrap(
        "<namespace name=\"Foo\">\
           <union name=\"Value\">\
             <field name=\"i\"><type name=\"gint\"/></field>\
             <field name=\"p\"><array><type name=\"utf8\"/></array></field>\
           </union>\
           <record name=\"Point\"><field name=\"x\"><type name=\"gint\"/></field></record>\
           <record name=\"WidgetClass\" glib:is-gtype-struct-for=\"Widget\" is-gtype-struct=\"1\"/>\
           <interface name=\"Thing\"><signal name=\"changed\"/><method name=\"poke\"><return-value><type name=\"none\"/></return-value></method></interface>\
           <callback name=\"Func\"><return-value><type name=\"gboolean\"/></return-value></callback>\
           <alias name=\"Size\" c:type=\"FooSize\"><type name=\"gsize\"/></alias>\
           <constant name=\"MAJOR\" value=\"3\"><type name=\"gint\"/></constant>\
           <function name=\"init\" c:identifier=\"foo_init\"><return-value><type name=\"none\"/></return-value></function>\
           <docsection name=\"intro\"><doc>Hello</doc></docsection>\
         </namespace>",
    );
    assert!(matches!(read_text(&mut lib, &text), Ok(DocumentStop::Finished)));
    match type_of(&lib, "Foo", "Value") {
        Type::Union(u) => {
            assert_eq!(u.fields.len(), 2);
            assert_eq!(u.fields[0].name, "i");
            assert_eq!(u.fields[1].name, "p");
        }
        _ => panic!("expected a union"),
    }
    assert!(matches!(type_of(&lib, "Foo", "Point"), Type::Record(_)));
    // A type structure record is read but not defined.
    let foo = lib.find_namespace("Foo").unwrap();
    assert_eq!(lib.find_type(foo, "WidgetClass"), None);
    match type_of(&lib, "Foo", "Thing") {
        Type::Interface(i) => assert_eq!(i.functions.len(), 1),
        _ => panic!("expected an interface"),
    }
    match type_of(&lib, "Foo", "Func") {
        Type::Callback(f) => assert_eq!(f.name, "Func"),
        _ => panic!("expected a callback"),
    }
    match type_of(&lib, "Foo", "Size") {
        Type::Alias(a) => {
            // `c:type` has the local name `type`.
            assert_eq!(a.c_identifier, "FooSize");
            assert_eq!(a.typ, TypeId { ns_id: INTERNAL_NAMESPACE, id: 18 });
        }
        _ => panic!("expected an alias"),
    }
    let ns = namespace(&lib, "Foo");
    assert_eq!(ns.constants.len(), 1);
    assert_eq!(ns.constants[0].name, "MAJOR");
    assert_eq!(ns.constants[0].value, "3");
    assert_eq!(ns.functions.len(), 1);
    assert_eq!(ns.functions[0].c_identifier, "foo_init");
    // The array of strings became a container in the internal namespace.
    let utf8 = lib.find_type(INTERNAL_NAMESPACE, "utf8").unwrap();
    let arr = lib.find_type(INTERNAL_NAMESPACE, &format!("[#0.{}]", utf8)).expect("array type");
    assert!(matches!(lib.namespaces[0].types[arr].typ, Some(Type::Array(TypeId { ns_id: 0, id })) if id == utf8));
}

#[test]
fn varargs_parameter() {
    let mut lib = Library::new();
    let text = wrap(
        "<namespace name=\"Foo\">\
           <function name=\"printf\">\
             <return-value><type name=\"gint\"/></return-value>\
             <parameters><parameter name=\"...\"><varargs/></parameter></parameters>\
           </function>\
         </namespace>",
    );
    assert!(matches!(read_text(&mut lib, &text), Ok(DocumentStop::Finished)));
    let f = &namespace(&lib, "Foo").functions[0];
    assert_eq!(f.parameters.len(), 1);
    assert_eq!(f.parameters[0].name, "");
    assert_eq!(f.parameters[0].transfer, Transfer::Nothing);
    assert_eq!(f.parameters[0].typ, TypeId { ns_id: INTERNAL_NAMESPACE, id: 27 });
}

#[test]
fn qualified_type_reference_declares_the_other_namespace() {
    let mut lib = Library::new();
    let text = wrap(
        "<namespace name=\"Gtk\">\
           <constant name=\"C\" value=\"x\"><type name=\"GLib.Variant\"/></constant>\
         </namespace>",
    );
    assert!(matches!(read_text(&mut lib, &text), Ok(DocumentStop::Finished)));
    let glib = lib.find_namespace("GLib").expect("declared namespace");
    let id = lib.find_type(glib, "Variant").expect("declared type");
    assert!(lib.namespaces[glib].types[id].typ.is_none());
    assert_eq!(namespace(&lib, "Gtk").constants[0].typ, TypeId { ns_id: glib, id });
}

#[test]
fn include_stops_and_resumes() {
    let mut lib = Library::new();
    let text = wrap(
        "<include name=\"GLib\" version=\"2.0\"/>\
         <include name=\"Foo\" version=\"1.0\"><doc/></include>\
         <namespace name=\"Foo\"><alias name=\"A\"><type name=\"GLib.Quark\"/></alias></namespace>",
    );
    let events = read_events(text.as_bytes());
    let resume = match lib.read_document(&events, &mut Vec::new()) {
        Ok(DocumentStop::Include { file, resume }) => {
            assert_eq!(file, "GLib-2.0");
            resume
        }
        _ => panic!("expected an include"),
    };
    // The included library is read by the caller; here its namespace appears.
    lib.get_namespace("GLib");
    let resume = match lib.resume_document(&events, resume, &mut Vec::new()) {
        Ok(DocumentStop::Include { file, resume }) => {
            assert_eq!(file, "Foo-1.0");
            resume
        }
        _ => panic!("expected the second include"),
    };
    lib.get_namespace("Foo");
    assert!(matches!(lib.resume_document(&events, resume, &mut Vec::new()), Ok(DocumentStop::Finished)));
    assert!(matches!(type_of(&lib, "Foo", "A"), Type::Alias(_)));
}

#[test]
fn include_of_a_known_library_is_skipped() {
    let mut lib = Library::new();
    lib.get_namespace("GLib");
    let text = wrap("<include name=\"GLib\" version=\"2.0\"/><namespace name=\"Foo\"/>");
    assert!(matches!(read_text(&mut lib, &text), Ok(DocumentStop::Finished)));
    assert!(lib.has_namespace("Foo"));
}

#[test]
fn other_root_elements_are_passed_over() {
    let mut lib = Library::new();
    let text = "<repository xmlns=\"urn:other\"><namespace name=\"Foo\"/></repository>";
    assert!(matches!(read_text(&mut lib, text), Ok(DocumentStop::Finished)));
    assert!(!lib.has_namespace("Foo"));
}

#[test]
fn error_missing_class_name() {
    let mut lib = Library::new();
    let text = wrap("<namespace name=\"Foo\"><class/></namespace>");
    let e = expect_error(read_text(&mut lib, &text));
    assert!(matches!(e.kind, ParseErrorKind::Missing(MissingAttribute::ClassName)));
}

#[test]
fn error_missing_namespace_name() {
    let mut lib = Library::new();
    let e = expect_error(read_text(&mut lib, &wrap("<namespace/>")));
    assert!(matches!(e.kind, ParseErrorKind::Missing(MissingAttribute::NamespaceName)));
}

#[test]
fn error_alias_without_name_is_reported_as_constant_name() {
    let mut lib = Library::new();
    let e = expect_error(read_text(&mut lib, &wrap("<namespace name=\"Foo\"><alias/></namespace>")));
    assert!(matches!(e.kind, ParseErrorKind::Missing(MissingAttribute::ConstantName)));
}

#[test]
fn error_constant_without_value() {
    let mut lib = Library::new();
    let e = expect_error(read_text(&mut lib, &wrap("<namespace name=\"Foo\"><constant name=\"C\"/></namespace>")));
    assert!(matches!(e.kind, ParseErrorKind::Missing(MissingAttribute::ConstantValue)));
}

#[test]
fn error_member_without_value() {
    let mut lib = Library::new();
    let e = expect_error(read_text(
        &mut lib,
        &wrap("<namespace name=\"Foo\"><enumeration name=\"E\"><member name=\"m\"/></enumeration></namespace>"),
    ));
    assert!(matches!(e.kind, ParseErrorKind::Missing(MissingAttribute::MemberValue)));
}

#[test]
fn error_unexpected_element_in_record() {
    let mut lib = Library::new();
    let e = expect_error(read_text(
        &mut lib,
        &wrap("<namespace name=\"Foo\"><record name=\"R\"><signal name=\"s\"/></record></namespace>"),
    ));
    match e.kind {
        ParseErrorKind::UnexpectedElement(name) => assert_eq!(name, "signal"),
        _ => panic!("expected an unexpected element"),
    }
}

#[test]
fn error_too_many_types() {
    let mut lib = Library::new();
    let e = expect_error(read_text(
        &mut lib,
        &wrap("<namespace name=\"Foo\"><constant name=\"C\" value=\"1\"><type name=\"gint\"/><type name=\"gint\"/></constant></namespace>"),
    ));
    assert!(matches!(e.kind, ParseErrorKind::TooManyTypes));
}

#[test]
fn error_missing_type() {
    let mut lib = Library::new();
    let e = expect_error(read_text(&mut lib, &wrap("<namespace name=\"Foo\"><constant name=\"C\" value=\"1\"/></namespace>")));
    assert!(matches!(e.kind, ParseErrorKind::MissingType));
}

#[test]
fn error_missing_and_repeated_return_value() {
    let mut lib = Library::new();
    let e = expect_error(read_text(&mut lib, &wrap("<namespace name=\"Foo\"><function name=\"f\"/></namespace>")));
    assert!(matches!(e.kind, ParseErrorKind::MissingReturnValue));
    let mut lib = Library::new();
    let e = expect_error(read_text(
        &mut lib,
        &wrap("<namespace name=\"Foo\"><function name=\"f\"><return-value><type name=\"none\"/></return-value><return-value><type name=\"none\"/></return-value></function></namespace>"),
    ));
    assert!(matches!(e.kind, ParseErrorKind::TooManyReturnValues));
}

#[test]
fn error_unknown_transfer_and_container() {
    let mut lib = Library::new();
    let e = expect_error(read_text(
        &mut lib,
        &wrap("<namespace name=\"Foo\"><function name=\"f\"><return-value transfer-ownership=\"some\"><type name=\"none\"/></return-value></function></namespace>"),
    ));
    assert!(matches!(e.kind, ParseErrorKind::UnknownTransfer));
    let mut lib = Library::new();
    let e = expect_error(read_text(
        &mut lib,
        &wrap("<namespace name=\"Foo\"><constant name=\"C\" value=\"1\"><type name=\"GLib.Tree\"><type name=\"gint\"/></type></constant></namespace>"),
    ));
    assert!(matches!(e.kind, ParseErrorKind::UnknownContainer));
}

#[test]
fn error_malformed_xml() {
    let mut lib = Library::new();
    let e = expect_error(read_text(&mut lib, &wrap("<namespace name=\"Foo\"><class name=\"A\"></namespace>")));
    assert!(matches!(e.kind, ParseErrorKind::Xml(_)));
}

#[test]
fn error_unexpected_end_and_its_position() {
    // Events that stop inside an element: the error stands at the last event.
    let events = numbered(vec![start("class", &[("name", "A")]), start("doc", &[])]);
    assert!(matches!(ignore_element(&events, 1), Err(ParseError { kind: ParseErrorKind::UnexpectedEnd, row: 1, .. })));
    let mut lib = Library::new();
    let e = lib.read_class(&events, 1, 0, &attrs(&[("name", "A")])).unwrap_err();
    assert!(matches!(e.kind, ParseErrorKind::UnexpectedEnd));
    assert_eq!((e.row, e.column), (1, 7));
}

#[test]
fn error_position_is_that_of_the_last_event_read() {
    // `<class name="A"><bogus/>`: the error is found after reading the `bogus` tag.
    let events = numbered(vec![start("class", &[("name", "A")]), end(), start("bogus", &[]), end(), end()]);
    let mut lib = Library::new();
    let e = lib.read_class(&events, 2, 0, &attrs(&[("name", "A")])).unwrap_err();
    match e.kind {
        ParseErrorKind::UnexpectedElement(n) => assert_eq!(n, "bogus"),
        _ => panic!("expected an unexpected element"),
    }
    assert_eq!(e.row, 2);
    // A missing name is reported at the opening tag itself.
    let e = lib.read_class(&events, 1, 0, &attrs(&[])).unwrap_err();
    assert_eq!(e.row, 0);
}

#[test]
fn ignore_element_skips_nested_content() {
    let events = vec![start("a", &[]), start("b", &[]), start("c", &[]), end(), end(), end(), start("d", &[])];
    assert!(matches!(ignore_element(&events, 1), Ok(6)));
    assert!(matches!(ignore_element(&events, 3), Ok(4)));
}

#[test]
fn read_type_of_containers() {
    let mut lib = Library::new();
    // <type name="GLib.HashTable"><type name="utf8"/><type name="gint"/></type>
    let events = vec![start("type", &[("name", "utf8")]), end(), start("type", &[("name", "gint")]), end(), end()];
    let (t, next) = lib.read_type(&events, 0, 0, "type", &attrs(&[("name", "GLib.HashTable")])).unwrap();
    assert_eq!(next, 5);
    let id = lib.find_type(INTERNAL_NAMESPACE, "HashTable(#0.24, #0.6)").expect("hash table type");
    assert_eq!(t, TypeId { ns_id: 0, id });
    // Asking again gives the same type.
    let (t2, _) = lib.read_type(&events, 0, 0, "type", &attrs(&[("name", "GLib.HashTable")])).unwrap();
    assert_eq!(t, t2);
    assert_eq!(lib.namespaces[0].types.len(), 29);
}

#[test]
fn unknown_namespace_children_are_reported() {
    let mut lib = Library::new();
    let text = wrap(
        "<namespace name=\"Foo\">\
           <boxed name=\"B\"><x/></boxed>\
           <constant name=\"C\" value=\"1\"><type name=\"gint\"/></constant>\
           <docsection/>\
         </namespace>",
    );
    let events = read_events(text.as_bytes());
    let mut notices = Vec::new();
    assert!(matches!(lib.read_document(&events, &mut notices), Ok(DocumentStop::Finished)));
    assert_eq!(notices.len(), 2);
    assert_eq!(notices[0].name, "boxed");
    assert_eq!(notices[0].name_attribute.as_deref(), Some("B"));
    assert_eq!(notices[0].line(), "<boxed name=Some(\"B\")>");
    assert_eq!(notices[1].line(), "<docsection name=None>");
    let foo = namespace(&lib, "Foo");
    assert_eq!(foo.constants.len(), 1);
    assert_eq!(foo.constants[0].value, "1");
}

#[test]
fn error_messages() {
    assert_eq!(ParseErrorKind::UnexpectedElement("x".to_string()).message(), "Unexpected element <x>");
    assert_eq!(ParseErrorKind::Missing(MissingAttribute::ConstantName).message(), "Missing constant name");
    assert_eq!(ParseErrorKind::UnexpectedEnd.message(), "Unexpected end of document");
    assert_eq!(ParseErrorKind::Xml("bad".to_string()).message(), "bad");
    assert_eq!(ParseErrorKind::TooManyReturnValues.message(), "Too many <return-value> elements");
}

#[test]
fn a_namespace_read_twice_is_reused() {
    let mut lib = Library::new();
    let text = wrap(
        "<namespace name=\"Foo\"><constant name=\"A\" value=\"1\"><type name=\"gint\"/></constant></namespace>\
         <namespace name=\"Foo\"><constant name=\"B\" value=\"2\"><type name=\"gint\"/></constant></namespace>",
    );
    assert!(matches!(read_text(&mut lib, &text), Ok(DocumentStop::Finished)));
    assert_eq!(lib.namespaces.iter().filter(|n| n.name == "Foo").count(), 1);
    assert_eq!(lib.namespaces.len(), 2);
    let foo = namespace(&lib, "Foo");
    assert_eq!(foo.constants.len(), 2);
    assert_eq!(foo.constants[0].name, "A");
    assert_eq!(foo.constants[1].name, "B");
}

#[test]
fn parameter_blocks_are_concatenated_in_order() {
    let mut lib = Library::new();
    let text = wrap(
        "<namespace name=\"Foo\">\
           <function name=\"f\">\
             <parameters><parameter name=\"a\"><type name=\"gint\"/></parameter></parameters>\
             <return-value><type name=\"none\"/></return-value>\
             <parameters>\
               <parameter name=\"b\"><type name=\"gint\"/></parameter>\
               <parameter name=\"c\"><type name=\"utf8\"/></parameter>\
             </parameters>\
           </function>\
           <function name=\"g\"><return-value><type name=\"none\"/></return-value></function>\
         </namespace>",
    );
    assert!(matches!(read_text(&mut lib, &text), Ok(DocumentStop::Finished)));
    let foo = namespace(&lib, "Foo");
    let names: Vec<&str> = foo.functions[0].parameters.iter().map(|p| p.name.as_str()).collect();
    assert_eq!(names, vec!["a", "b", "c"]);
    assert_eq!(foo.functions[0].c_identifier, "f");
    assert!(foo.functions[1].parameters.is_empty());
}

#[test]
fn a_failing_child_keeps_what_earlier_children_did() {
    let mut lib = Library::new();
    let text = wrap(
        "<namespace name=\"Foo\">\
           <alias name=\"Size\"><type name=\"gsize\"/></alias>\
           <constant name=\"A\" value=\"1\"><type name=\"gint\"/></constant>\
           <constant name=\"B\"><type name=\"gint\"/></constant>\
           <constant name=\"C\" value=\"3\"><type name=\"gint\"/></constant>\
         </namespace>",
    );
    let e = expect_error(read_text(&mut lib, &text));
    assert!(matches!(e.kind, ParseErrorKind::Missing(MissingAttribute::ConstantValue)));
    let foo = namespace(&lib, "Foo");
    assert_eq!(foo.constants.len(), 1);
    assert_eq!(foo.constants[0].name, "A");
    assert!(matches!(type_of(&lib, "Foo", "Size"), Type::Alias(_)));
}

#[test]
fn a_failing_function_adds_no_function() {
    let mut lib = Library::new();
    let text = wrap(
        "<namespace name=\"Foo\">\
           <function name=\"ok\"><return-value><type name=\"none\"/></return-value></function>\
           <function name=\"bad\"><parameters/></function>\
         </namespace>",
    );
    let e = expect_error(read_text(&mut lib, &text));
    assert!(matches!(e.kind, ParseErrorKind::MissingReturnValue));
    let foo = namespace(&lib, "Foo");
    assert_eq!(foo.functions.len(), 1);
    assert_eq!(foo.functions[0].name, "ok");
}

#[test]
fn an_unread_include_stops_before_later_elements() {
    let mut lib = Library::new();
    let text = wrap(
        "<namespace name=\"Early\"/>\
         <include name=\"GLib\" version=\"2.0\"/>\
         <namespace name=\"Late\"/>",
    );
    let events = read_events(text.as_bytes());
    match lib.read_document(&events, &mut Vec::new()) {
        Ok(DocumentStop::Include { file, .. }) => assert_eq!(file, "GLib-2.0"),
        _ => panic!("expected an include"),
    }
    assert!(lib.has_namespace("Early"));
    assert!(!lib.has_namespace("Late"));
    assert!(!lib.has_namespace("GLib"));
}
