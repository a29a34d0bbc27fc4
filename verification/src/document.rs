//! Reading namespaces, repositories and whole documents. Reading a document stops
//! at each `<include>` of a library that is not read yet, so that the caller can
//! read that library first and then resume.

use vstd::prelude::*;
use crate::events::{
    attribute_value, attributes_view, get_attribute, items_view, unknowns_view, Attribute,
    MissingAttribute, ParseError, ParseErrorKind, SpecParseError, UnknownElement, XmlEventKind,
    XmlItem,
};
use crate::grammar::{
    spec_namespace_content, spec_namespace_item,
    spec_read_document, spec_read_namespace, spec_read_namespace_item, spec_repository_content,
    spec_resume_document, CompoundKind, NamespaceItem, Reading, SpecDocumentStop,
    SpecRepositoryStop,
};
use crate::laws::{
    closes_element, law_find_namespace_extends, law_get_namespace_idempotent, lemma_within_child, lemma_within_end,
    lemma_within_other, lemma_within_start, within_element,
};
use crate::library::{
    extends, find_namespace, get_namespace, namespace_names, unique_names, Library, LibraryModel,
};
use crate::parser::{
    agrees, agrees_unit, check_interruption, ignore_element, reads_element_unit,
    make_end_error, make_error,
};
use crate::text::{concat_str, str_equal};

verus! {

/// What an element called `name` directly inside a `<namespace>` is read as.
pub fn namespace_item(name: &str) -> (r: NamespaceItem)
    ensures
        r == spec_namespace_item(name@),
{
    if str_equal(name, "class") {
        NamespaceItem::Compound(CompoundKind::Class)
    } else if str_equal(name, "record") {
        NamespaceItem::Compound(CompoundKind::Record)
    } else if str_equal(name, "union") {
        NamespaceItem::Compound(CompoundKind::Union)
    } else if str_equal(name, "interface") {
        NamespaceItem::Compound(CompoundKind::Interface)
    } else if str_equal(name, "callback") {
        NamespaceItem::Callback
    } else if str_equal(name, "bitfield") {
        NamespaceItem::Compound(CompoundKind::Bitfield)
    } else if str_equal(name, "enumeration") {
        NamespaceItem::Compound(CompoundKind::Enumeration)
    } else if str_equal(name, "function") {
        NamespaceItem::Function
    } else if str_equal(name, "constant") {
        NamespaceItem::Constant
    } else if str_equal(name, "alias") {
        NamespaceItem::Alias
    } else {
        NamespaceItem::Unknown
    }
}

/// A namespace that reading set up stays where it was put: found under its name, at
/// the id it had before reading if it was already there.
proof fn lemma_namespace_kept(lib0: LibraryModel, start: LibraryModel, now: LibraryModel, name: Seq<char>)
    requires
        extends(lib0, start),
        extends(start, now),
        find_namespace(start, name) is Some,
    ensures
        find_namespace(now, name) is Some,
        find_namespace(lib0, name) matches Some(i) ==> find_namespace(now, name) == Some(i),
{
    law_find_namespace_extends(start, now, name);
    if find_namespace(lib0, name) is Some {
        law_find_namespace_extends(lib0, start, name);
    }
}

/// Where reading a repository stopped (see `SpecRepositoryStop`).
#[derive(Debug)]
pub enum RepositoryStop {
    End,
    Include { file: String, resume: usize },
}

impl View for RepositoryStop {
    type V = SpecRepositoryStop;

    open spec fn view(&self) -> SpecRepositoryStop {
        match self {
            RepositoryStop::End => SpecRepositoryStop::End,
            RepositoryStop::Include { file, resume } => SpecRepositoryStop::Include {
                file: file@,
                resume: *resume as int,
            },
        }
    }
}

/// Where reading a document stopped: at its end, or at an `<include>` of the library
/// `file` (`name-version`), after which reading resumes at `resume`.
#[derive(Debug)]
pub enum DocumentStop {
    Finished,
    Include { file: String, resume: usize },
}

impl View for DocumentStop {
    type V = SpecDocumentStop;

    open spec fn view(&self) -> SpecDocumentStop {
        match self {
            DocumentStop::Finished => SpecDocumentStop::Finished,
            DocumentStop::Include { file, resume } => SpecDocumentStop::Include {
                file: file@,
                resume: *resume as int,
            },
        }
    }
}

/// A document reading result agrees with the model's outcome.
pub open spec fn document_agrees(
    r: Result<DocumentStop, ParseError>,
    s: Result<(SpecDocumentStop, int), SpecParseError>,
) -> bool {
    match r {
        Ok(d) => s matches Ok((d2, _)) && d2 == d@,
        Err(x) => s == Err::<(SpecDocumentStop, int), SpecParseError>(x@),
    }
}

/// The library, the skipped elements recorded and the result are those of the model.
pub open spec fn follows_reading_unit(
    lib: LibraryModel,
    notes: Seq<UnknownElement>,
    r: Result<usize, ParseError>,
    s: Reading<()>,
) -> bool {
    lib == s.lib && unknowns_view(notes) == s.notices && agrees_unit(r, s.result)
}

pub open spec fn follows_reading<T: View>(
    lib: LibraryModel,
    notes: Seq<UnknownElement>,
    r: Result<(T, usize), ParseError>,
    s: Reading<T::V>,
) -> bool {
    lib == s.lib && unknowns_view(notes) == s.notices && agrees(r, s.result)
}

pub open spec fn follows_document(
    lib: LibraryModel,
    notes: Seq<UnknownElement>,
    r: Result<DocumentStop, ParseError>,
    s: Reading<SpecDocumentStop>,
) -> bool {
    lib == s.lib && unknowns_view(notes) == s.notices && document_agrees(r, s.result)
}

fn push_notice(notices: &mut Vec<UnknownElement>, u: UnknownElement)
    ensures
        unknowns_view(final(notices)@) == unknowns_view(old(notices)@).push(u@),
{
    let ghost uv = u@;
    notices.push(u);
    assert(unknowns_view(notices@) =~= unknowns_view(old(notices)@).push(uv));
}

impl Library {
    /// Reads an element called `name` directly inside a namespace, as `item` says,
    /// whose opening tag, with attributes `attrs`, came just before `pos`; an unknown
    /// element is recorded in `notices` and skipped.
    pub fn read_namespace_item(
        &mut self,
        events: &[XmlItem],
        pos: usize,
        ns_id: usize,
        name: &str,
        item: NamespaceItem,
        attrs: &[Attribute],
        notices: &mut Vec<UnknownElement>,
    ) -> (r: Result<usize, ParseError>)
        requires
            ns_id < old(self)@.len(),
        ensures
            follows_reading_unit(
                final(self)@,
                final(notices)@,
                r,
                spec_read_namespace_item(
                    old(self)@,
                    items_view(events@),
                    pos as int,
                    ns_id as int,
                    name@,
                    item,
                    attributes_view(attrs@),
                    unknowns_view(old(notices)@),
                ),
            ),
            extends(old(self)@, final(self)@),
            reads_element_unit(r, pos, items_view(events@)),
    {
        match item {
            NamespaceItem::Compound(kind) => self.read_compound(events, pos, ns_id, kind, attrs),
            NamespaceItem::Callback => self.read_callback(events, pos, ns_id, attrs),
            NamespaceItem::Function => self.read_global_function(events, pos, ns_id, attrs),
            NamespaceItem::Constant => self.read_constant(events, pos, ns_id, attrs),
            NamespaceItem::Alias => self.read_alias(events, pos, ns_id, attrs),
            NamespaceItem::Unknown => {
                let name_attribute = match get_attribute(attrs, "name") {
                    Some(v) => Some(String::from_str(v)),
                    None => None,
                };
                push_notice(notices, UnknownElement { name: String::from_str(name), name_attribute });
                ignore_element(events, pos)
            },
        }
    }

    /// Reads a `<namespace>` element whose opening tag, with attributes `attrs`, came
    /// just before `pos`, into the namespace of its `name`, which is added if absent;
    /// unknown elements in it are recorded in `notices`.
    pub fn read_namespace(
        &mut self,
        events: &[XmlItem],
        pos: usize,
        attrs: &[Attribute],
        notices: &mut Vec<UnknownElement>,
    ) -> (r: Result<usize, ParseError>)
        ensures
            follows_reading_unit(
                final(self)@,
                final(notices)@,
                r,
                spec_read_namespace(
                    old(self)@,
                    items_view(events@),
                    pos as int,
                    attributes_view(attrs@),
                    unknowns_view(old(notices)@),
                ),
            ),
            extends(old(self)@, final(self)@),
            reads_element_unit(r, pos, items_view(events@)),
            r is Ok ==> attribute_value(attributes_view(attrs@), "name"@) is Some,
            attribute_value(attributes_view(attrs@), "name"@) matches Some(n) ==> find_namespace(final(self)@, n) is Some
                && (find_namespace(old(self)@, n) matches Some(i) ==> find_namespace(final(self)@, n) == Some(i)),
            unique_names(old(self)@) ==> unique_names(final(self)@),
    {
        let ghost e = items_view(events@);
        let ghost av = attributes_view(attrs@);
        let ghost lib0 = self@;
        let ghost seen0 = unknowns_view(notices@);
        let name: &str = match get_attribute(attrs, "name") {
            Some(n) => n,
            None => {
                return Err(make_error(events, pos, ParseErrorKind::Missing(MissingAttribute::NamespaceName)));
            },
        };
        let ns_id = self.get_namespace(name);
        self.rename_namespace(ns_id, name);
        let ghost start = self@;
        proof {
            law_get_namespace_idempotent(lib0, name@);
            let l1 = get_namespace(lib0, name@).0;
            assert(namespace_names(start) =~= namespace_names(l1));
        }
        let ghost goal = spec_namespace_content(start, e, pos as int, ns_id as int, seen0);
        let n = events.len();
        let mut p = pos;
        proof {
            lemma_within_start(e, pos as int);
        }
        while p < n
            invariant
                n == events@.len(),
                e == items_view(events@),
                av == attributes_view(attrs@),
                pos <= p,
                within_element(e, pos as int, p as int),
                lib0 == old(self)@,
                seen0 == unknowns_view(old(notices)@),
                attribute_value(av, "name"@) == Some(name@),
                find_namespace(start, name@) is Some,
                start == crate::library::rename_namespace(get_namespace(lib0, name@).0, ns_id as int, name@),
                get_namespace(lib0, name@).1 == ns_id as int,
                extends(lib0, start),
                ns_id < self@.len(),
                extends(start, self@),
                goal == spec_namespace_content(start, e, pos as int, ns_id as int, seen0),
                spec_namespace_content(self@, e, p as int, ns_id as int, unknowns_view(notices@)) == goal,
            decreases n - p,
        {
            assert(e[p as int] == events@[p as int]@);
            match &events[p].event {
                XmlEventKind::StartElement { name: child, attributes, .. } => {
                    let item = namespace_item(child.as_str());
                    match self.read_namespace_item(
                        events,
                        p + 1,
                        ns_id,
                        child.as_str(),
                        item,
                        attributes.as_slice(),
                        notices,
                    ) {
                        Err(x) => {
                            proof {
                                lemma_namespace_kept(lib0, start, self@, name@);
                            }
                            return Err(x);
                        },
                        Ok(q) => {
                            proof {
                                lemma_within_child(e, pos as int, p as int, q as int);
                            }
                            p = q;
                        },
                    }
                },
                XmlEventKind::EndElement => {
                    proof {
                        lemma_within_end(e, pos as int, p as int);
                        lemma_namespace_kept(lib0, start, self@, name@);
                    }
                    return Ok(p + 1);
                },
                _ => {
                    if let Some(x) = check_interruption(&events[p]) {
                        proof {
                            lemma_namespace_kept(lib0, start, self@, name@);
                        }
                        return Err(x);
                    }
                    proof {
                        lemma_within_other(e, pos as int, p as int);
                    }
                    p = p + 1;
                },
            }
        }
        proof {
            lemma_namespace_kept(lib0, start, self@, name@);
        }
        Err(make_end_error(events))
    }

    /// Reads a `<repository>` element whose opening tag came just before `pos`, up to
    /// its end or up to an `<include>` of a library that has no namespace yet; unknown
    /// elements of its namespaces are recorded in `notices`.
    pub fn read_repository(&mut self, events: &[XmlItem], pos: usize, notices: &mut Vec<UnknownElement>) -> (r:
        Result<(RepositoryStop, usize), ParseError>)
        ensures
            follows_reading(
                final(self)@,
                final(notices)@,
                r,
                spec_repository_content(old(self)@, items_view(events@), pos as int, unknowns_view(old(notices)@)),
            ),
            extends(old(self)@, final(self)@),
            r matches Ok((stop, p)) ==> pos < p <= events@.len() && (stop is End ==> closes_element(
                items_view(events@),
                pos as int,
                p as int,
            )),
    {
        let ghost e = items_view(events@);
        let ghost lib0 = self@;
        let ghost seen0 = unknowns_view(notices@);
        let ghost goal = spec_repository_content(lib0, e, pos as int, seen0);
        let n = events.len();
        let mut p = pos;
        proof {
            lemma_within_start(e, pos as int);
        }
        while p < n
            invariant
                n == events@.len(),
                e == items_view(events@),
                pos <= p,
                within_element(e, pos as int, p as int),
                lib0 == old(self)@,
                seen0 == unknowns_view(old(notices)@),
                extends(lib0, self@),
                goal == spec_repository_content(lib0, e, pos as int, seen0),
                spec_repository_content(self@, e, p as int, unknowns_view(notices@)) == goal,
            decreases n - p,
        {
            assert(e[p as int] == events@[p as int]@);
            match &events[p].event {
                XmlEventKind::StartElement { name: child, attributes, .. } => {
                    if str_equal(child.as_str(), "include") {
                        let lib_name = get_attribute(attributes.as_slice(), "name");
                        let version = get_attribute(attributes.as_slice(), "version");
                        if let (Some(l), Some(v)) = (lib_name, version) {
                            if !self.has_namespace(l) {
                                let mut file = concat_str(l, "-");
                                file.append(v);
                                return Ok((RepositoryStop::Include { file, resume: p + 1 }, p + 1));
                            }
                        }
                        match ignore_element(events, p + 1) {
                            Err(x) => {
                                return Err(x);
                            },
                            Ok(q) => {
                                proof {
                                    lemma_within_child(e, pos as int, p as int, q as int);
                                }
                                p = q;
                            },
                        }
                    } else if str_equal(child.as_str(), "namespace") {
                        match self.read_namespace(events, p + 1, attributes.as_slice(), notices) {
                            Err(x) => {
                                return Err(x);
                            },
                            Ok(q) => {
                                proof {
                                    lemma_within_child(e, pos as int, p as int, q as int);
                                }
                                p = q;
                            },
                        }
                    } else {
                        match ignore_element(events, p + 1) {
                            Err(x) => {
                                return Err(x);
                            },
                            Ok(q) => {
                                proof {
                                    lemma_within_child(e, pos as int, p as int, q as int);
                                }
                                p = q;
                            },
                        }
                    }
                },
                XmlEventKind::EndElement => {
                    proof {
                        lemma_within_end(e, pos as int, p as int);
                    }
                    return Ok((RepositoryStop::End, p + 1));
                },
                _ => {
                    if let Some(x) = check_interruption(&events[p]) {
                        return Err(x);
                    }
                    proof {
                        lemma_within_other(e, pos as int, p as int);
                    }
                    p = p + 1;
                },
            }
        }
        Err(make_end_error(events))
    }

    /// Reads a document from event `pos` on (see `spec_read_document`).
    fn read_document_from(&mut self, events: &[XmlItem], pos: usize, notices: &mut Vec<UnknownElement>) -> (r:
        Result<DocumentStop, ParseError>)
        ensures
            follows_document(
                final(self)@,
                final(notices)@,
                r,
                spec_read_document(old(self)@, items_view(events@), pos as int, unknowns_view(old(notices)@)),
            ),
            extends(old(self)@, final(self)@),
    {
        let ghost e = items_view(events@);
        let ghost lib0 = self@;
        let ghost seen0 = unknowns_view(notices@);
        let ghost goal = spec_read_document(lib0, e, pos as int, seen0);
        let n = events.len();
        let mut p = pos;
        while p < n
            invariant
                n == events@.len(),
                e == items_view(events@),
                pos <= p,
                lib0 == old(self)@,
                seen0 == unknowns_view(old(notices)@),
                extends(lib0, self@),
                goal == spec_read_document(lib0, e, pos as int, seen0),
                spec_read_document(self@, e, p as int, unknowns_view(notices@)) == goal,
            decreases n - p,
        {
            assert(e[p as int] == events@[p as int]@);
            match &events[p].event {
                XmlEventKind::StartElement { name, namespace, .. } => {
                    let is_repository = str_equal(name.as_str(), "repository") && match namespace {
                        Some(ns) => str_equal(ns.as_str(), "http://www.gtk.org/introspection/core/1.0"),
                        None => false,
                    };
                    if is_repository {
                        match self.read_repository(events, p + 1, notices) {
                            Err(x) => {
                                return Err(x);
                            },
                            Ok((RepositoryStop::Include { file, resume }, _)) => {
                                return Ok(DocumentStop::Include { file, resume });
                            },
                            Ok((RepositoryStop::End, q)) => {
                                p = q;
                            },
                        }
                    } else {
                        p = p + 1;
                    }
                },
                XmlEventKind::Error(m) => {
                    return Err(
                        ParseError {
                            kind: ParseErrorKind::Xml(m.clone()),
                            row: events[p].row,
                            column: events[p].column,
                        },
                    );
                },
                XmlEventKind::EndDocument => {
                    return Ok(DocumentStop::Finished);
                },
                _ => {
                    p = p + 1;
                },
            }
        }
        Ok(DocumentStop::Finished)
    }

    /// Reads a whole document into the library, up to its end or up to the first
    /// `<include>` of a library that is not read yet; the elements skipped as unknown
    /// inside namespaces are appended to `notices`, in document order.
    pub fn read_document(&mut self, events: &[XmlItem], notices: &mut Vec<UnknownElement>) -> (r: Result<
        DocumentStop,
        ParseError,
    >)
        ensures
            follows_document(
                final(self)@,
                final(notices)@,
                r,
                spec_read_document(old(self)@, items_view(events@), 0, unknowns_view(old(notices)@)),
            ),
            extends(old(self)@, final(self)@),
    {
        self.read_document_from(events, 0, notices)
    }

    /// Goes on reading a document that stopped at an `<include>` (see
    /// `DocumentStop::Include`), once the included library is read.
    pub fn resume_document(&mut self, events: &[XmlItem], resume: usize, notices: &mut Vec<UnknownElement>) -> (r:
        Result<DocumentStop, ParseError>)
        ensures
            follows_document(
                final(self)@,
                final(notices)@,
                r,
                spec_resume_document(old(self)@, items_view(events@), resume as int, unknowns_view(old(notices)@)),
            ),
            extends(old(self)@, final(self)@),
    {
        match ignore_element(events, resume) {
            Err(x) => Err(x),
            Ok(p) => match self.read_repository(events, p, notices) {
                Err(x) => Err(x),
                Ok((RepositoryStop::Include { file, resume }, _)) => Ok(DocumentStop::Include { file, resume }),
                Ok((RepositoryStop::End, q)) => self.read_document_from(events, q, notices),
            },
        }
    }
}

/// The name of the file that holds the library `name` (`name-version`).
pub fn gir_file_name(name: &str) -> (r: String)
    ensures
        r@ == name@ + ".gir"@,
{
    concat_str(name, ".gir")
}

} // verus!
