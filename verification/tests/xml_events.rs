use gir::events::{XmlEventKind, XmlItem};
use gir::xml_input::read_events;

fn start_name(item: &XmlItem) -> Option<&str> {
    match &item.event {
        XmlEventKind::StartElement { name, .. } => Some(name.as_str()),
        _ => None,
    }
}

#[test]
fn events_of_a_small_document() {
    let doc = "<repository xmlns=\"http://www.gtk.org/introspection/core/1.0\">\n<namespace name=\"Foo\" version=\"1.0\"/>\n</repository>";
    let events = read_events(doc.as_bytes());
    // StartDocument, repository, text, namespace start and end, text, repository end, end.
    let starts: Vec<&str> = events.iter().filter_map(start_name).collect();
    assert_eq!(starts, vec!["repository", "namespace"]);
    match &events[1].event {
        XmlEventKind::StartElement { name, namespace, attributes } => {
            assert_eq!(name, "repository");
            assert_eq!(namespace.as_deref(), Some("http://www.gtk.org/introspection/core/1.0"));
            assert!(attributes.is_empty());
        }
        _ => panic!("expected the repository tag"),
    }
    let ns = events.iter().find(|e| start_name(e) == Some("namespace")).unwrap();
    match &ns.event {
        XmlEventKind::StartElement { attributes, .. } => {
            assert_eq!(attributes.len(), 2);
            assert_eq!(attributes[0].name, "name");
            assert_eq!(attributes[0].value, "Foo");
            assert_eq!(attributes[1].name, "version");
            assert_eq!(attributes[1].value, "1.0");
        }
        _ => unreachable!(),
    }
    // The namespace tag stands on the second line (row 1).
    assert_eq!(ns.row, 1);
    assert!(matches!(events.last().unwrap().event, XmlEventKind::EndDocument));
    let ends = events.iter().filter(|e| matches!(e.event, XmlEventKind::EndElement)).count();
    assert_eq!(ends, 2);
}

#[test]
fn events_stop_at_the_first_error() {
    let doc = "<a><b></a>";
    let events = read_events(doc.as_bytes());
    match &events.last().unwrap().event {
        XmlEventKind::Error(msg) => assert!(!msg.is_empty()),
        other => panic!("expected an error, got {}", matches!(other, XmlEventKind::Other)),
    }
    for e in &events[..events.len() - 1] {
        assert!(!matches!(e.event, XmlEventKind::Error(_) | XmlEventKind::EndDocument));
    }
}

#[test]
fn events_of_empty_input_end_in_an_error() {
    let events = read_events(b"");
    assert!(!events.is_empty());
    assert!(matches!(events.last().unwrap().event, XmlEventKind::Error(_)));
}
