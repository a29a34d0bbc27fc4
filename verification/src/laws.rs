//! Properties of the library model that hold across operations.

use vstd::prelude::*;
use crate::events::{attribute_value, SpecAttribute, SpecEvent, SpecItem, SpecUnknown};
use crate::grammar::{
    interruption, is_repository_tag, skip_content, spec_function_content, spec_namespace_content,
    spec_namespace_item, spec_read_document, spec_read_namespace, spec_read_namespace_item,
    spec_read_parameters, spec_repository_content, spec_resume_document, wanted_include, Reading,
    SpecDocumentStop, SpecRepositoryStop,
};
use crate::library::{
    add_type, container, container_type, defines, extends, find_namespace, find_or_declare,
    find_type, get_namespace, get_type, namespace_names, rename_namespace, type_id, type_names,
    unique_names, with_types,
    LibraryModel, SpecParameter, SpecType, SpecTypeEntry, INTERNAL_NAMESPACE,
};
use crate::text::{
    first_index, is_first_index, lemma_first_index_absent, lemma_first_index_found,
    split_qualified,
};

verus! {

/// Appending to a sequence keeps the first occurrence of anything it already held,
/// and makes the appended element the first occurrence of itself otherwise.
pub proof fn lemma_first_index_push<A>(s: Seq<A>, x: A, y: A)
    ensures
        first_index(s.push(x), y) == (match first_index(s, y) {
            Some(i) => Some(i),
            None => if x == y {
                Some(s.len() as int)
            } else {
                None
            },
        }),
{
    let t = s.push(x);
    match first_index(s, y) {
        Some(i) => {
            assert(is_first_index(s, y, i)) by {
                let k = choose|k: int| is_first_index(s, y, k);
                assert(is_first_index(s, y, k));
            }
            assert(is_first_index(t, y, i));
            lemma_first_index_found(t, y, i);
        },
        None => {
            assert forall|j: int| 0 <= j < s.len() implies s[j] != y by {
                if s[j] == y {
                    lemma_least_occurrence(s, y, j);
                    let m = choose|m: int| 0 <= m <= j && s[m] == y && forall|k: int| 0 <= k < m ==> s[k] != y;
                    // `m` would be a first index, which `first_index` says there is not.
                    assert(is_first_index(s, y, m));
                }
            }
            if x == y {
                assert(is_first_index(t, y, s.len() as int));
                lemma_first_index_found(t, y, s.len() as int);
            } else {
                lemma_first_index_absent(t, y);
            }
        },
    }
}

/// Any occurrence has a least occurrence at or before it.
proof fn lemma_least_occurrence<A>(s: Seq<A>, y: A, j: int)
    requires
        0 <= j < s.len(),
        s[j] == y,
    ensures
        exists|m: int| 0 <= m <= j && s[m] == y && forall|k: int| 0 <= k < m ==> s[k] != y,
    decreases j,
{
    if exists|k: int| 0 <= k < j && s[k] == y {
        let k = choose|k: int| 0 <= k < j && s[k] == y;
        lemma_least_occurrence(s, y, k);
    } else {
        assert(0 <= j <= j && s[j] == y && forall|k: int| 0 <= k < j ==> s[k] != y);
    }
}

/// The first index of `y` in `s` is a first index in the sense of `is_first_index`.
pub proof fn lemma_first_index_is_first<A>(s: Seq<A>, y: A)
    ensures
        first_index(s, y) matches Some(i) ==> is_first_index(s, y, i),
{
    if let Some(i) = first_index(s, y) {
        let k = choose|k: int| is_first_index(s, y, k);
        assert(is_first_index(s, y, k));
    }
}

/// Looking up a namespace by name a second time finds the one the first lookup
/// found or added, and changes nothing.
pub proof fn law_get_namespace_idempotent(lib: LibraryModel, name: Seq<char>)
    ensures
        ({
            let (l1, id) = get_namespace(lib, name);
            &&& get_namespace(l1, name) == (l1, id)
            &&& find_namespace(l1, name) == Some(id)
            &&& 0 <= id < l1.len()
            &&& l1[id].name == name
        }),
{
    lemma_first_index_is_first(namespace_names(lib), name);
    let (l1, id) = get_namespace(lib, name);
    match find_namespace(lib, name) {
        Some(i) => {
            assert(namespace_names(lib)[i] == lib[i].name);
        },
        None => {
            let ns = crate::library::empty_namespace(name);
            assert(namespace_names(l1) =~= namespace_names(lib).push(ns.name));
            lemma_first_index_push(namespace_names(lib), ns.name, name);
        },
    }
}

/// After a type is defined under a name, the first entry of that name in its namespace
/// holds the definition.
pub proof fn law_add_type_defines(lib: LibraryModel, ns: int, name: Seq<char>, t: SpecType)
    requires
        0 <= ns < lib.len(),
    ensures
        ({
            let l1 = add_type(lib, ns, name, t).0;
            &&& find_type(l1, ns, name) matches Some(i) && l1[ns].types[i] == (SpecTypeEntry {
                name,
                typ: Some(t),
            })
            &&& defines(l1, ns, name)
        }),
{
    let names = type_names(lib[ns].types);
    lemma_first_index_is_first(names, name);
    let l1 = add_type(lib, ns, name, t).0;
    match find_type(lib, ns, name) {
        Some(i) => {
            assert(type_names(l1[ns].types) =~= names);
        },
        None => {
            assert(type_names(l1[ns].types) =~= names.push(name));
            lemma_first_index_push(names, name, name);
        },
    }
}

/// A namespace found by name in a library is found, at the same id, in any library
/// that extends it.
pub proof fn law_find_namespace_extends(a: LibraryModel, b: LibraryModel, name: Seq<char>)
    requires
        extends(a, b),
        find_namespace(a, name) is Some,
    ensures
        find_namespace(b, name) == find_namespace(a, name),
{
    lemma_first_index_is_first(namespace_names(a), name);
    let i = find_namespace(a, name).unwrap();
    assert(is_first_index(namespace_names(b), name, i)) by {
        assert forall|j: int| 0 <= j < i implies namespace_names(b)[j] != name by {
            assert(b[j].name == a[j].name);
            assert(namespace_names(a)[j] != name);
        }
        assert(b[i].name == a[i].name);
    }
    lemma_first_index_found(namespace_names(b), name, i);
}

/// After a type is defined under a name, looking that name up finds it: the entry
/// holds the definition, and resolving a reference to the name from the same
/// namespace gives its id and changes nothing.
pub proof fn law_add_type_then_find(lib: LibraryModel, ns: int, name: Seq<char>, t: SpecType)
    requires
        0 <= ns < lib.len() <= usize::MAX,
        lib[ns].types.len() < usize::MAX,
    ensures
        ({
            let (l1, id) = add_type(lib, ns, name, t);
            &&& id == type_id(ns, id.id as int)
            &&& find_type(l1, ns, name) == Some(id.id as int)
            &&& l1[ns].types[id.id as int] == (SpecTypeEntry { name, typ: Some(t) })
            &&& l1.len() == lib.len()
            &&& get_type(l1, ns, name) == (l1, id)
        }),
{
    let names = type_names(lib[ns].types);
    lemma_first_index_is_first(names, name);
    let (l1, id) = add_type(lib, ns, name, t);
    match find_type(lib, ns, name) {
        Some(i) => {
            assert(type_names(l1[ns].types) =~= names);
        },
        None => {
            assert(type_names(l1[ns].types) =~= names.push(name));
            lemma_first_index_push(names, name, name);
        },
    }
}

/// Defining a type touches no other namespace and no other entry of its namespace.
pub proof fn law_add_type_frame(lib: LibraryModel, ns: int, name: Seq<char>, t: SpecType, other_ns: int, k: int)
    requires
        0 <= ns < lib.len(),
        0 <= other_ns < lib.len(),
        0 <= k < lib[other_ns].types.len(),
        other_ns != ns || lib[other_ns].types[k].name != name,
    ensures
        ({
            let (l1, id) = add_type(lib, ns, name, t);
            &&& l1[other_ns].types[k] == lib[other_ns].types[k]
            &&& l1[other_ns].name == lib[other_ns].name
            &&& l1[other_ns].constants == lib[other_ns].constants
            &&& l1[other_ns].functions == lib[other_ns].functions
        }),
{
    let names = type_names(lib[ns].types);
    lemma_first_index_is_first(names, name);
    if let Some(i) = find_type(lib, ns, name) {
        assert(names[i] == name);
        if other_ns == ns {
            assert(names[k] == lib[ns].types[k].name);
        }
    }
}

/// A placeholder declared for an unknown name is found by the next lookup of that
/// name.
proof fn lemma_find_or_declare_idempotent(lib: LibraryModel, ns: int, name: Seq<char>)
    requires
        0 <= ns < lib.len(),
    ensures
        ({
            let (l1, id) = find_or_declare(lib, ns, name);
            &&& find_or_declare(l1, ns, name) == (l1, id)
            &&& l1.len() == lib.len()
            &&& forall|m: int| 0 <= m < lib.len() && m != ns ==> l1[m] == lib[m]
            &&& forall|k: int| 0 <= k < lib[ns].types.len() ==> l1[ns].types[k] == lib[ns].types[k]
        }),
{
    let names = type_names(lib[ns].types);
    if find_type(lib, ns, name) is None {
        let (l1, id) = find_or_declare(lib, ns, name);
        assert(type_names(l1[ns].types) =~= names.push(name));
        lemma_first_index_push(names, name, name);
    }
}

/// Resolving the same type name from the same namespace a second time gives the same
/// type and changes nothing: references are resolved consistently.
pub proof fn law_get_type_idempotent(lib: LibraryModel, ns: int, name: Seq<char>)
    requires
        0 <= ns < lib.len(),
    ensures
        ({
            let (l1, id) = get_type(lib, ns, name);
            get_type(l1, ns, name) == (l1, id)
        }),
{
    let names = type_names(lib[ns].types);
    let (l1, id) = get_type(lib, ns, name);
    if find_type(lib, ns, name) is None {
        lemma_first_index_is_first(names, name);
        match split_qualified(name) {
            Some((qualifier, local)) => {
                law_get_namespace_idempotent(lib, qualifier);
                let (l0, q) = get_namespace(lib, qualifier);
                assert(l0.len() >= lib.len());
                assert(l0[ns] == lib[ns]) by {
                    if find_namespace(lib, qualifier) is None {
                        assert(l0 == lib.push(crate::library::empty_namespace(qualifier)));
                    }
                }
                lemma_find_or_declare_idempotent(l0, q, local);
                assert(namespace_names(l1) =~= namespace_names(l0));
                assert(get_namespace(l1, qualifier) == (l1, q));
                // The full name is still unknown in `ns`: a placeholder added to `ns`
                // is called `local`, which is shorter than `name`.
                lemma_first_index_is_first(name, '.');
                assert(local.len() < name.len());
                let names1 = type_names(l1[ns].types);
                if ns == q && find_type(l0, q, local) is None {
                    assert(names1 =~= names.push(local));
                    lemma_first_index_push(names, local, name);
                } else {
                    assert(names1 =~= names);
                }
            },
            None => {
                if find_type(lib, INTERNAL_NAMESPACE as int, name) is None {
                    assert(type_names(l1[ns].types) =~= names.push(name));
                    lemma_first_index_push(names, name, name);
                }
            },
        }
    }
}

/// Container types are shared: asking again for a container of the same kind over the
/// same element types gives the same type and changes nothing.
pub proof fn law_container_shared(lib: LibraryModel, name: Seq<char>, args: Seq<crate::library::TypeId>)
    requires
        INTERNAL_NAMESPACE < lib.len() <= usize::MAX,
        lib[INTERNAL_NAMESPACE as int].types.len() < usize::MAX,
        container_type(name, args) is Some,
    ensures
        ({
            let (l1, t) = container(lib, name, args).unwrap();
            container(l1, name, args) == Some((l1, t))
        }),
{
    let (n, ty) = container_type(name, args).unwrap();
    let internal = INTERNAL_NAMESPACE as int;
    law_add_type_then_find(lib, internal, n, ty);
    let (l1, t) = add_type(lib, internal, n, ty);
    let entry = SpecTypeEntry { name: n, typ: Some(ty) };
    assert(l1[internal].types.update(t.id as int, entry) =~= l1[internal].types);
    assert(with_types(l1[internal], l1[internal].types) == l1[internal]);
    assert(l1.update(internal, l1[internal]) =~= l1);
}

/// A reference to a type that is not defined yet declares it, and its later
/// definition gets the id that the reference got: forward references resolve to the
/// definition.
pub proof fn law_forward_reference(lib: LibraryModel, ns: int, name: Seq<char>, t: SpecType)
    requires
        0 <= ns < lib.len(),
        split_qualified(name) is None,
        find_type(lib, ns, name) is None,
        find_type(lib, INTERNAL_NAMESPACE as int, name) is None,
    ensures
        ({
            let (l1, id) = get_type(lib, ns, name);
            add_type(l1, ns, name, t).1 == id
        }),
{
    let names = type_names(lib[ns].types);
    lemma_first_index_is_first(names, name);
    let (l1, id) = get_type(lib, ns, name);
    assert(type_names(l1[ns].types) =~= names.push(name));
    lemma_first_index_push(names, name, name);
}

/// How an event changes the element nesting depth.
pub open spec fn depth_change(ev: SpecEvent) -> int {
    match ev {
        SpecEvent::StartElement { .. } => 1,
        SpecEvent::EndElement => -1,
        _ => 0,
    }
}

/// The change of nesting depth over the events `from..to`.
pub open spec fn nesting(e: Seq<SpecItem>, from: int, to: int) -> int
    decreases to - from,
{
    if to <= from {
        0
    } else {
        nesting(e, from, to - 1) + depth_change(e[to - 1].event)
    }
}

proof fn lemma_nesting_split(e: Seq<SpecItem>, a: int, b: int, c: int)
    requires
        a <= b <= c,
    ensures
        nesting(e, a, c) == nesting(e, a, b) + nesting(e, b, c),
    decreases c - b,
{
    if b < c {
        lemma_nesting_split(e, a, b, c - 1);
    }
}

/// Skipping an element stops right after its own closing tag: the events skipped
/// close one more element than they open, and no shorter stretch of them does.
pub proof fn law_skip_content_matches_end(e: Seq<SpecItem>, pos: int)
    ensures
        skip_content(e, pos) matches Ok(p) ==> {
            &&& pos < p <= e.len()
            &&& nesting(e, pos, p) == -1
            &&& forall|q: int| pos <= q < p ==> nesting(e, pos, q) >= 0
        },
    decreases e.len() - pos,
{
    if 0 <= pos < e.len() {
        assert(nesting(e, pos, pos) == 0);
        assert(nesting(e, pos, pos + 1) == depth_change(e[pos].event));
        match e[pos].event {
            SpecEvent::StartElement { .. } => {
                law_skip_content_matches_end(e, pos + 1);
                if let Ok(p1) = skip_content(e, pos + 1) {
                    if pos < p1 <= e.len() {
                        law_skip_content_matches_end(e, p1);
                        if let Ok(p) = skip_content(e, p1) {
                            lemma_nesting_split(e, pos, pos + 1, p);
                            lemma_nesting_split(e, pos + 1, p1, p);
                            assert forall|q: int| pos <= q < p implies nesting(e, pos, q) >= 0 by {
                                if q > pos + 1 && q <= p1 {
                                    lemma_nesting_split(e, pos, pos + 1, q);
                                } else if q > p1 {
                                    lemma_nesting_split(e, pos, pos + 1, q);
                                    lemma_nesting_split(e, pos + 1, p1, q);
                                }
                            }
                        }
                    }
                }
            },
            SpecEvent::EndElement => {},
            _ => {
                law_skip_content_matches_end(e, pos + 1);
                if let Ok(p) = skip_content(e, pos + 1) {
                    lemma_nesting_split(e, pos, pos + 1, p);
                    assert forall|q: int| pos <= q < p implies nesting(e, pos, q) >= 0 by {
                        if q > pos {
                            lemma_nesting_split(e, pos, pos + 1, q);
                        }
                    }
                }
            },
        }
    }
}

/// The events `pos..p` end with the closing tag of an element that was open at `pos`:
/// they close one more element than they open, and no shorter stretch of them does.
pub open spec fn closes_element(e: Seq<SpecItem>, pos: int, p: int) -> bool {
    &&& nesting(e, pos, p) == -1
    &&& forall|q: int| pos <= q < p ==> nesting(e, pos, q) >= 0
}

/// The events `pos..p` stay inside an element that was open at `pos` and end at its
/// own level.
pub open spec fn within_element(e: Seq<SpecItem>, pos: int, p: int) -> bool {
    &&& pos <= p
    &&& nesting(e, pos, p) == 0
    &&& forall|q: int| pos <= q <= p ==> nesting(e, pos, q) >= 0
}

pub proof fn lemma_within_start(e: Seq<SpecItem>, pos: int)
    ensures
        within_element(e, pos, pos),
{
    assert(nesting(e, pos, pos) == 0);
}

/// A nested element read completely keeps a reader at its own level.
pub proof fn lemma_within_child(e: Seq<SpecItem>, pos: int, p: int, q: int)
    requires
        within_element(e, pos, p),
        0 <= p < e.len(),
        e[p].event is StartElement,
        closes_element(e, p + 1, q),
        p + 1 <= q,
    ensures
        within_element(e, pos, q),
{
    assert(nesting(e, p, p) == 0);
    assert(nesting(e, p, p + 1) == 1);
    lemma_nesting_split(e, pos, p, p + 1);
    lemma_nesting_split(e, pos, p + 1, q);
    assert forall|r: int| pos <= r <= q implies nesting(e, pos, r) >= 0 by {
        if r > p + 1 {
            lemma_nesting_split(e, pos, p + 1, r);
        }
    }
}

/// Text and other events keep a reader at its own level.
pub proof fn lemma_within_other(e: Seq<SpecItem>, pos: int, p: int)
    requires
        within_element(e, pos, p),
        0 <= p < e.len(),
        !(e[p].event is StartElement),
        !(e[p].event is EndElement),
    ensures
        within_element(e, pos, p + 1),
{
    assert(nesting(e, pos, p + 1) == nesting(e, pos, p) + depth_change(e[p].event));
}

/// The closing tag at a reader's own level closes its element.
pub proof fn lemma_within_end(e: Seq<SpecItem>, pos: int, p: int)
    requires
        within_element(e, pos, p),
        0 <= p < e.len(),
        e[p].event is EndElement,
    ensures
        closes_element(e, pos, p + 1),
{
    assert(nesting(e, pos, p + 1) == nesting(e, pos, p) + depth_change(e[p].event));
}

/// Reading stopped at event `resume - 1`, the opening tag of an `<include>` whose
/// library (`file` is `name-version`) has no namespace in `lib`.
pub open spec fn stops_at_unread_include(lib: LibraryModel, e: Seq<SpecItem>, file: Seq<char>, resume: int) -> bool {
    &&& 1 <= resume <= e.len()
    &&& e[resume - 1].event matches SpecEvent::StartElement { name, attributes, .. } && name == "include"@
        && wanted_include(lib, attributes) == Some(file)
}

/// Reading a repository stops only at an `<include>` whose library has no namespace
/// in the library as it stands at that point, and resumes right after its opening tag.
pub proof fn law_repository_stops_at_unread_include(
    lib: LibraryModel,
    e: Seq<SpecItem>,
    pos: int,
    seen: Seq<SpecUnknown>,
)
    ensures
        ({
            let r = spec_repository_content(lib, e, pos, seen);
            r.result matches Ok((SpecRepositoryStop::Include { file, resume }, next)) ==> next == resume
                && stops_at_unread_include(r.lib, e, file, resume)
        }),
    decreases e.len() - pos,
{
    if 0 <= pos < e.len() {
        match e[pos].event {
            SpecEvent::StartElement { name, attributes, .. } => {
                if name == "include"@ {
                    if wanted_include(lib, attributes) is None {
                        if let Ok(p) = skip_content(e, pos + 1) {
                            if pos < p <= e.len() {
                                law_repository_stops_at_unread_include(lib, e, p, seen);
                            }
                        }
                    }
                } else if name == "namespace"@ {
                    let r = spec_read_namespace(lib, e, pos + 1, attributes, seen);
                    if let Ok((_, p)) = r.result {
                        if pos < p <= e.len() {
                            law_repository_stops_at_unread_include(r.lib, e, p, r.notices);
                        }
                    }
                } else {
                    if let Ok(p) = skip_content(e, pos + 1) {
                        if pos < p <= e.len() {
                            law_repository_stops_at_unread_include(lib, e, p, seen);
                        }
                    }
                }
            },
            SpecEvent::EndElement => {},
            _ => {
                if interruption(e[pos]) is None {
                    law_repository_stops_at_unread_include(lib, e, pos + 1, seen);
                }
            },
        }
    }
}

/// Reading a document stops only at an `<include>`, anywhere in a repository, whose
/// library has no namespace in the library as it stands when reading stops.
pub proof fn law_document_stops_at_unread_include(
    lib: LibraryModel,
    e: Seq<SpecItem>,
    pos: int,
    seen: Seq<SpecUnknown>,
)
    ensures
        ({
            let r = spec_read_document(lib, e, pos, seen);
            r.result matches Ok((SpecDocumentStop::Include { file, resume }, _)) ==> stops_at_unread_include(
                r.lib,
                e,
                file,
                resume,
            )
        }),
    decreases e.len() - pos,
{
    if 0 <= pos < e.len() {
        match e[pos].event {
            SpecEvent::StartElement { name, namespace, .. } => {
                if is_repository_tag(name, namespace) {
                    law_repository_stops_at_unread_include(lib, e, pos + 1, seen);
                    let r = spec_repository_content(lib, e, pos + 1, seen);
                    if let Ok((SpecRepositoryStop::End, p)) = r.result {
                        if pos < p <= e.len() {
                            law_document_stops_at_unread_include(r.lib, e, p, r.notices);
                        }
                    }
                } else {
                    law_document_stops_at_unread_include(lib, e, pos + 1, seen);
                }
            },
            SpecEvent::Error(_) => {},
            SpecEvent::EndDocument => {},
            _ => {
                law_document_stops_at_unread_include(lib, e, pos + 1, seen);
            },
        }
    }
}

/// Resuming after an `<include>` skips that element and reads on; it too stops only at
/// an `<include>` whose library has no namespace yet.
pub proof fn law_resume_stops_at_unread_include(
    lib: LibraryModel,
    e: Seq<SpecItem>,
    resume: int,
    seen: Seq<SpecUnknown>,
)
    ensures
        ({
            let r = spec_resume_document(lib, e, resume, seen);
            r.result matches Ok((SpecDocumentStop::Include { file, resume: again }, _)) ==> stops_at_unread_include(
                r.lib,
                e,
                file,
                again,
            )
        }),
        skip_content(e, resume) matches Ok(p) ==> spec_resume_document(lib, e, resume, seen) == ({
            let r = spec_repository_content(lib, e, p, seen);
            match r.result {
                Ok((SpecRepositoryStop::End, q)) => spec_read_document(r.lib, e, q, r.notices),
                Ok((SpecRepositoryStop::Include { file, resume }, q)) => Reading {
                    lib: r.lib,
                    notices: r.notices,
                    result: Ok((SpecDocumentStop::Include { file, resume }, q)),
                },
                Err(x) => Reading { lib: r.lib, notices: r.notices, result: Err(x) },
            }
        }),
{
    if let Ok(p) = skip_content(e, resume) {
        law_repository_stops_at_unread_include(lib, e, p, seen);
        let r = spec_repository_content(lib, e, p, seen);
        if let Ok((SpecRepositoryStop::End, q)) = r.result {
            law_document_stops_at_unread_include(r.lib, e, q, r.notices);
        }
    }
}

/// The children of a namespace are read one after another, in document order: a
/// child that fails ends the reading with the library as the earlier children and
/// that child left it, and a child read completely hands its library on to the next.
pub proof fn law_namespace_children_in_order(
    lib: LibraryModel,
    e: Seq<SpecItem>,
    pos: int,
    ns: int,
    seen: Seq<SpecUnknown>,
)
    requires
        0 <= pos < e.len(),
        e[pos].event is StartElement,
    ensures
        ({
            let name = e[pos].event->StartElement_name;
            let attrs = e[pos].event->StartElement_attributes;
            let child = spec_read_namespace_item(lib, e, pos + 1, ns, name, spec_namespace_item(name), attrs, seen);
            match child.result {
                Err(_) => spec_namespace_content(lib, e, pos, ns, seen) == child,
                Ok((_, p)) => pos < p <= e.len() ==> spec_namespace_content(lib, e, pos, ns, seen)
                    == spec_namespace_content(child.lib, e, p, ns, child.notices),
            }
        }),
{
}

/// A function's `<parameters>` blocks are read one after another and their parameters
/// appended, in document order, to those read before; a block that fails ends the
/// reading of the function with its error.
pub proof fn law_parameter_blocks_appended(
    lib: LibraryModel,
    e: Seq<SpecItem>,
    pos: int,
    ns: int,
    params: Seq<SpecParameter>,
    ret: Option<SpecParameter>,
)
    requires
        0 <= pos < e.len(),
        e[pos].event matches SpecEvent::StartElement { name, .. } && name == "parameters"@,
    ensures
        ({
            let block = spec_read_parameters(lib, e, pos + 1, ns, Seq::empty());
            match block.result {
                Ok((ps, p)) => pos < p <= e.len() ==> spec_function_content(lib, e, pos, ns, params, ret)
                    == spec_function_content(block.lib, e, p, ns, params + ps, ret),
                Err(x) => spec_function_content(lib, e, pos, ns, params, ret) == crate::grammar::failed::<
                    (Seq<SpecParameter>, Option<SpecParameter>),
                >(block.lib, x),
            }
        }),
{
}

/// The parameters that a function's content yields are the ones it started with,
/// followed by those of its `<parameters>` blocks in document order (none when it has
/// no such block); the rest of the reading does not depend on what it started with.
pub proof fn law_function_parameters_concatenated(
    lib: LibraryModel,
    e: Seq<SpecItem>,
    pos: int,
    ns: int,
    params: Seq<SpecParameter>,
    ret: Option<SpecParameter>,
)
    ensures
        ({
            let a = spec_function_content(lib, e, pos, ns, params, ret);
            let b = spec_function_content(lib, e, pos, ns, Seq::empty(), ret);
            &&& a.lib == b.lib
            &&& match (a.result, b.result) {
                (Ok(((pa, ra), p)), Ok(((pb, rb), q))) => pa == params + pb && ra == rb && p == q,
                (Err(x), Err(y)) => x == y,
                _ => false,
            }
        }),
    decreases e.len() - pos,
{
    let empty = Seq::<SpecParameter>::empty();
    if 0 <= pos < e.len() {
        match e[pos].event {
            SpecEvent::StartElement { name, attributes, .. } => {
                if name == "parameters"@ {
                    let r = spec_read_parameters(lib, e, pos + 1, ns, Seq::empty());
                    if let Ok((ps, p)) = r.result {
                        if pos < p <= e.len() {
                            law_function_parameters_concatenated(r.lib, e, p, ns, params + ps, ret);
                            law_function_parameters_concatenated(r.lib, e, p, ns, empty + ps, ret);
                            let rest = spec_function_content(r.lib, e, p, ns, empty, ret);
                            if let Ok(((pe, _), _)) = rest.result {
                                assert(params + ps + pe =~= params + ((empty + ps) + pe));
                            }
                        }
                    }
                } else if name == "return-value"@ {
                    if ret is None {
                        let r = crate::grammar::spec_read_parameter(lib, e, pos + 1, ns, attributes);
                        if let Ok((rv, p)) = r.result {
                            if pos < p <= e.len() {
                                law_function_parameters_concatenated(r.lib, e, p, ns, params, Some(rv));
                            }
                        }
                    }
                } else if crate::grammar::spec_is_doc_element(name) {
                    if let Ok(p) = skip_content(e, pos + 1) {
                        if pos < p <= e.len() {
                            law_function_parameters_concatenated(lib, e, p, ns, params, ret);
                        }
                    }
                }
            },
            SpecEvent::EndElement => {
                assert(params + empty =~= params);
            },
            _ => {
                if interruption(e[pos]) is None {
                    law_function_parameters_concatenated(lib, e, pos + 1, ns, params, ret);
                }
            },
        }
    }
}

/// An `<include>` of a library that has no namespace yet, met directly inside a
/// repository, stops the reading right there, before any later element of the
/// repository is read, and with the library unchanged.
pub proof fn law_unread_include_stops_here(lib: LibraryModel, e: Seq<SpecItem>, pos: int, seen: Seq<SpecUnknown>)
    requires
        0 <= pos < e.len(),
        e[pos].event matches SpecEvent::StartElement { name, attributes, .. } && name == "include"@
            && wanted_include(lib, attributes) is Some,
    ensures
        ({
            let file = wanted_include(lib, e[pos].event->StartElement_attributes).unwrap();
            spec_repository_content(lib, e, pos, seen) == Reading {
                lib,
                notices: seen,
                result: Ok((SpecRepositoryStop::Include { file, resume: pos + 1 }, pos + 1)),
            }
        }),
{
}

/// A library that extends another has no second namespace of any name unless the
/// other already had two: of two namespaces with the same name, the later one was
/// already there. So names that were unique stay unique.
pub proof fn law_no_second_namespace(a: LibraryModel, b: LibraryModel, name: Seq<char>)
    requires
        extends(a, b),
    ensures
        forall|j: int, k: int|
            0 <= j < k < b.len() && (#[trigger] b[j]).name == name && (#[trigger] b[k]).name == name ==> k < a.len(),
        find_namespace(a, name) is Some ==> forall|k: int| a.len() <= k < b.len() ==> (#[trigger] b[k]).name != name,
        unique_names(a) ==> unique_names(b),
{
    if find_namespace(a, name) is Some {
        let i = find_namespace(a, name).unwrap();
        lemma_first_index_is_first(namespace_names(a), name);
        assert forall|k: int| a.len() <= k < b.len() implies (#[trigger] b[k]).name != name by {
            assert(namespace_names(a)[i] == a[i].name);
            assert(b[i].name == a[i].name);
        }
    }
    if unique_names(a) {
        assert forall|i: int, j: int| 0 <= i < j < b.len() implies (#[trigger] b[i]).name != (#[trigger] b[j]).name by {
            if j < a.len() {
                assert(b[i].name == a[i].name);
                assert(b[j].name == a[j].name);
            }
        }
    }
}

/// Reading the content of namespace `ns` from event `pos`, with library `lib` and
/// notices `seen`, gets to event `q` with library `l` and notices `s`: every child
/// element before `q` was read completely, one after another, in document order.
pub open spec fn children_reach(
    lib: LibraryModel,
    e: Seq<SpecItem>,
    pos: int,
    ns: int,
    seen: Seq<SpecUnknown>,
    l: LibraryModel,
    q: int,
    s: Seq<SpecUnknown>,
) -> bool
    decreases e.len() - pos,
{
    if pos == q {
        lib == l && seen == s
    } else if !(0 <= pos < q <= e.len()) {
        false
    } else {
        match e[pos].event {
            SpecEvent::StartElement { name, attributes, .. } => {
                let c = spec_read_namespace_item(lib, e, pos + 1, ns, name, spec_namespace_item(name), attributes, seen);
                match c.result {
                    Ok((_, p)) => pos < p <= q && children_reach(c.lib, e, p, ns, c.notices, l, q, s),
                    Err(_) => false,
                }
            },
            SpecEvent::EndElement => false,
            _ => interruption(e[pos]) is None && children_reach(lib, e, pos + 1, ns, seen, l, q, s),
        }
    }
}

/// Once the children before `q` are read, reading the namespace's content goes on
/// from `q` with what they left.
pub proof fn lemma_children_reach(
    lib: LibraryModel,
    e: Seq<SpecItem>,
    pos: int,
    ns: int,
    seen: Seq<SpecUnknown>,
    l: LibraryModel,
    q: int,
    s: Seq<SpecUnknown>,
)
    requires
        children_reach(lib, e, pos, ns, seen, l, q, s),
    ensures
        spec_namespace_content(lib, e, pos, ns, seen) == spec_namespace_content(l, e, q, ns, s),
    decreases e.len() - pos,
{
    if pos != q {
        match e[pos].event {
            SpecEvent::StartElement { name, attributes, .. } => {
                let c = spec_read_namespace_item(lib, e, pos + 1, ns, name, spec_namespace_item(name), attributes, seen);
                if let Ok((_, p)) = c.result {
                    lemma_children_reach(c.lib, e, p, ns, c.notices, l, q, s);
                }
            },
            _ => {
                lemma_children_reach(lib, e, pos + 1, ns, seen, l, q, s);
            },
        }
    }
}

/// The library in which a `<namespace>` called `name` has its content read: the
/// namespace of that name, found or added, and named `name`; with its id.
pub open spec fn namespace_start(lib: LibraryModel, name: Seq<char>) -> (LibraryModel, int) {
    let (l, ns) = get_namespace(lib, name);
    (rename_namespace(l, ns, name), ns)
}

/// A `<namespace>` called `name` all of whose children are read completely succeeds:
/// when its children, read one after another from its start, lead to its closing tag
/// at `q`, the reading ends right after that tag, with the library and notices that
/// its children left.
pub proof fn law_namespace_all_children_read(
    lib: LibraryModel,
    e: Seq<SpecItem>,
    pos: int,
    attrs: Seq<SpecAttribute>,
    seen: Seq<SpecUnknown>,
    name: Seq<char>,
    l: LibraryModel,
    q: int,
    s: Seq<SpecUnknown>,
)
    requires
        attribute_value(attrs, "name"@) == Some(name),
        children_reach(namespace_start(lib, name).0, e, pos, namespace_start(lib, name).1, seen, l, q, s),
        0 <= q < e.len(),
        e[q].event is EndElement,
    ensures
        spec_read_namespace(lib, e, pos, attrs, seen) == (Reading::<()> { lib: l, notices: s, result: Ok(((), q + 1)) }),
{
    let (start, ns) = namespace_start(lib, name);
    lemma_children_reach(start, e, pos, ns, seen, l, q, s);
}

/// A `<namespace>` called `name` whose children are read completely up to `q`, where
/// the next child fails, fails with that child's error: the library is what the
/// earlier children left, as the failing child then left it, the notices are those
/// of the earlier children, and nothing after the failing child is read.
pub proof fn law_namespace_child_fails(
    lib: LibraryModel,
    e: Seq<SpecItem>,
    pos: int,
    attrs: Seq<SpecAttribute>,
    seen: Seq<SpecUnknown>,
    name: Seq<char>,
    l: LibraryModel,
    q: int,
    s: Seq<SpecUnknown>,
)
    requires
        attribute_value(attrs, "name"@) == Some(name),
        children_reach(namespace_start(lib, name).0, e, pos, namespace_start(lib, name).1, seen, l, q, s),
        0 <= q < e.len(),
        e[q].event is StartElement,
        spec_read_namespace_item(
            l,
            e,
            q + 1,
            namespace_start(lib, name).1,
            e[q].event->StartElement_name,
            spec_namespace_item(e[q].event->StartElement_name),
            e[q].event->StartElement_attributes,
            s,
        ).result is Err,
    ensures
        spec_read_namespace(lib, e, pos, attrs, seen) == spec_read_namespace_item(
            l,
            e,
            q + 1,
            namespace_start(lib, name).1,
            e[q].event->StartElement_name,
            spec_namespace_item(e[q].event->StartElement_name),
            e[q].event->StartElement_attributes,
            s,
        ),
{
    let (start, ns) = namespace_start(lib, name);
    lemma_children_reach(start, e, pos, ns, seen, l, q, s);
}

} // verus!
