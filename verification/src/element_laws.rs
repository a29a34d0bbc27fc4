//! Laws of the element readers: what each reader makes of its element, stated over
//! the element's attributes and content and the library operations.

use vstd::prelude::*;
use crate::events::{attribute_value, MissingAttribute, SpecAttribute, SpecErrorKind, SpecEvent, SpecItem};
use crate::grammar::{
    error_at, failed, spec_parameter_content, spec_read_alias, spec_read_children, spec_read_constant,
    spec_read_function, spec_read_parameter, spec_read_type, spec_single_type, spec_type_args,
    spec_namespace_item, CompoundKind, NamespaceItem, SpecChildren,
};
use crate::laws::{law_add_type_then_find, law_get_namespace_idempotent, lemma_first_index_is_first, lemma_first_index_push};
use crate::library::{
    add_constant, add_type, container, find_type, get_type, id_text, transfer_named, type_id,
    type_names, LibraryModel, SpecConstant, SpecType, SpecTypeEntry, Transfer, INTERNAL_NAMESPACE,
};

verus! {

// ---------------------------------------------------------------------------
// Reading types never removes a namespace
// ---------------------------------------------------------------------------

/// Resolving a type reference keeps every namespace.
proof fn lemma_get_type_len(lib: LibraryModel, ns: int, name: Seq<char>)
    requires
        0 <= ns < lib.len(),
    ensures
        get_type(lib, ns, name).0.len() >= lib.len(),
{
    if let Some((qualifier, local)) = crate::text::split_qualified(name) {
        law_get_namespace_idempotent(lib, qualifier);
    }
}

/// Reading a `<type>` or `<array>` element keeps every namespace.
proof fn lemma_read_type_len(
    lib: LibraryModel,
    e: Seq<SpecItem>,
    pos: int,
    ns: int,
    element: Seq<char>,
    attrs: Seq<SpecAttribute>,
)
    requires
        0 <= ns < lib.len(),
    ensures
        spec_read_type(lib, e, pos, ns, element, attrs).lib.len() >= lib.len(),
    decreases e.len() - pos, 1int,
{
    let name = if element == "array"@ {
        Some("array"@)
    } else {
        attribute_value(attrs, "name"@)
    };
    if let Some(name) = name {
        lemma_type_args_len(lib, e, pos, ns, Seq::empty());
        let r = spec_type_args(lib, e, pos, ns, Seq::empty());
        if let Ok((args, p)) = r.result {
            if args.len() == 0 {
                lemma_get_type_len(r.lib, ns, name);
            }
        }
    }
}

/// Reading the element types nested in a type reference keeps every namespace.
proof fn lemma_type_args_len(lib: LibraryModel, e: Seq<SpecItem>, pos: int, ns: int, args: Seq<crate::library::TypeId>)
    requires
        0 <= ns < lib.len(),
    ensures
        spec_type_args(lib, e, pos, ns, args).lib.len() >= lib.len(),
    decreases e.len() - pos, 0int,
{
    if 0 <= pos < e.len() {
        match e[pos].event {
            SpecEvent::StartElement { name, attributes, .. } => {
                if crate::grammar::spec_is_type_element(name) {
                    lemma_read_type_len(lib, e, pos + 1, ns, name, attributes);
                    let r = spec_read_type(lib, e, pos + 1, ns, name, attributes);
                    if let Ok((t, p)) = r.result {
                        if pos < p <= e.len() {
                            lemma_type_args_len(r.lib, e, p, ns, args.push(t));
                        }
                    }
                }
            },
            SpecEvent::EndElement => {},
            _ => {
                lemma_type_args_len(lib, e, pos + 1, ns, args);
            },
        }
    }
}

/// Reading content that holds at most one type keeps every namespace.
proof fn lemma_single_type_len(lib: LibraryModel, e: Seq<SpecItem>, pos: int, ns: int, typ: Option<crate::library::TypeId>)
    requires
        0 <= ns < lib.len(),
    ensures
        spec_single_type(lib, e, pos, ns, typ).lib.len() >= lib.len(),
    decreases e.len() - pos,
{
    if 0 <= pos < e.len() {
        match e[pos].event {
            SpecEvent::StartElement { name, attributes, .. } => {
                if crate::grammar::spec_is_type_element(name) {
                    if typ is None {
                        lemma_read_type_len(lib, e, pos + 1, ns, name, attributes);
                        let r = spec_read_type(lib, e, pos + 1, ns, name, attributes);
                        if let Ok((t, p)) = r.result {
                            if pos < p <= e.len() {
                                lemma_single_type_len(r.lib, e, p, ns, Some(t));
                            }
                        }
                    }
                } else if crate::grammar::spec_is_doc_element(name) {
                    if let Ok(p) = crate::grammar::skip_content(e, pos + 1) {
                        if pos < p <= e.len() {
                            lemma_single_type_len(lib, e, p, ns, typ);
                        }
                    }
                }
            },
            SpecEvent::EndElement => {},
            _ => {
                lemma_single_type_len(lib, e, pos + 1, ns, typ);
            },
        }
    }
}

/// Defining a type under a name leaves an entry of that name holding the definition,
/// found by looking the name up.
proof fn lemma_add_type_found(lib: LibraryModel, ns: int, name: Seq<char>, t: SpecType)
    requires
        0 <= ns < lib.len(),
    ensures
        ({
            let l1 = add_type(lib, ns, name, t).0;
            &&& l1.len() == lib.len()
            &&& find_type(l1, ns, name) matches Some(i) && 0 <= i < l1[ns].types.len()
                && l1[ns].types[i] == (SpecTypeEntry { name, typ: Some(t) })
        }),
{
    let names = type_names(lib[ns].types);
    lemma_first_index_is_first(names, name);
    let l1 = add_type(lib, ns, name, t).0;
    match find_type(lib, ns, name) {
        Some(i) => {
            assert(type_names(l1[ns].types) =~= names);
            lemma_first_index_is_first(type_names(l1[ns].types), name);
        },
        None => {
            assert(type_names(l1[ns].types) =~= names.push(name));
            lemma_first_index_push(names, name, name);
            lemma_first_index_is_first(type_names(l1[ns].types), name);
        },
    }
}

// ---------------------------------------------------------------------------
// The laws
// ---------------------------------------------------------------------------

/// A `<constructor>`, `<function>` or `<method>` child of any compound type element
/// (class, record, union, interface, bitfield or enumeration) is read as a function:
/// the function read from it is appended, after those of earlier children, to the
/// functions the element yields, and reading goes on after it; if it fails, the
/// element fails with its error.
pub proof fn law_compound_reads_function_children(
    lib: LibraryModel,
    e: Seq<SpecItem>,
    pos: int,
    ns: int,
    kind: CompoundKind,
    acc: SpecChildren,
)
    requires
        0 <= pos < e.len(),
        e[pos].event is StartElement,
        e[pos].event->StartElement_name == "constructor"@ || e[pos].event->StartElement_name == "function"@
            || e[pos].event->StartElement_name == "method"@,
    ensures
        ({
            let f = spec_read_function(lib, e, pos + 1, ns, e[pos].event->StartElement_attributes);
            match f.result {
                Ok((fun, p)) => pos < p <= e.len() ==> spec_read_children(lib, e, pos, ns, kind, acc)
                    == spec_read_children(
                    f.lib,
                    e,
                    p,
                    ns,
                    kind,
                    SpecChildren { functions: acc.functions.push(fun), ..acc },
                ),
                Err(x) => spec_read_children(lib, e, pos, ns, kind, acc) == failed::<SpecChildren>(f.lib, x),
            }
        }),
{
    reveal_strlit("constructor");
    reveal_strlit("function");
    reveal_strlit("method");
    reveal_strlit("field");
    reveal_strlit("member");
    reveal_strlit("record");
    reveal_strlit("union");
    reveal_strlit("property");
    reveal_strlit("implements");
    reveal_strlit("signal");
    reveal_strlit("virtual-method");
    reveal_strlit("doc");
    reveal_strlit("doc-deprecated");
    assert("constructor"@ != "field"@) by { assert("constructor"@.len() != "field"@.len()); }
    assert("constructor"@ != "member"@) by { assert("constructor"@.len() != "member"@.len()); }
    assert("constructor"@ != "record"@) by { assert("constructor"@.len() != "record"@.len()); }
    assert("constructor"@ != "union"@) by { assert("constructor"@.len() != "union"@.len()); }
    assert("constructor"@ != "property"@) by { assert("constructor"@.len() != "property"@.len()); }
    assert("constructor"@ != "implements"@) by { assert("constructor"@.len() != "implements"@.len()); }
    assert("constructor"@ != "signal"@) by { assert("constructor"@.len() != "signal"@.len()); }
    assert("constructor"@ != "virtual-method"@) by { assert("constructor"@.len() != "virtual-method"@.len()); }
    assert("constructor"@ != "doc"@) by { assert("constructor"@.len() != "doc"@.len()); }
    assert("constructor"@ != "doc-deprecated"@) by { assert("constructor"@.len() != "doc-deprecated"@.len()); }
    assert("function"@ != "field"@) by { assert("function"@.len() != "field"@.len()); }
    assert("function"@ != "member"@) by { assert("function"@.len() != "member"@.len()); }
    assert("function"@ != "record"@) by { assert("function"@.len() != "record"@.len()); }
    assert("function"@ != "union"@) by { assert("function"@.len() != "union"@.len()); }
    assert("function"@ != "property"@) by { assert("function"@[0] != "property"@[0]); }
    assert("function"@ != "implements"@) by { assert("function"@.len() != "implements"@.len()); }
    assert("function"@ != "signal"@) by { assert("function"@.len() != "signal"@.len()); }
    assert("function"@ != "virtual-method"@) by { assert("function"@.len() != "virtual-method"@.len()); }
    assert("function"@ != "doc"@) by { assert("function"@.len() != "doc"@.len()); }
    assert("function"@ != "doc-deprecated"@) by { assert("function"@.len() != "doc-deprecated"@.len()); }
    assert("method"@ != "field"@) by { assert("method"@.len() != "field"@.len()); }
    assert("method"@ != "member"@) by { assert("method"@[2] != "member"@[2]); }
    assert("method"@ != "record"@) by { assert("method"@[0] != "record"@[0]); }
    assert("method"@ != "union"@) by { assert("method"@.len() != "union"@.len()); }
    assert("method"@ != "property"@) by { assert("method"@.len() != "property"@.len()); }
    assert("method"@ != "implements"@) by { assert("method"@.len() != "implements"@.len()); }
    assert("method"@ != "signal"@) by { assert("method"@[0] != "signal"@[0]); }
    assert("method"@ != "virtual-method"@) by { assert("method"@.len() != "virtual-method"@.len()); }
    assert("method"@ != "doc"@) by { assert("method"@.len() != "doc"@.len()); }
    assert("method"@ != "doc-deprecated"@) by { assert("method"@.len() != "doc-deprecated"@.len()); }
}

/// The type that an `<alias>` element defines is found under the element's `name`
/// and is an alias with that same name, whatever its `type` attribute says; its C
/// identifier is the `type` attribute (the name when absent), and it refers to the
/// type that its content names.
pub proof fn law_alias_named_by_its_name(
    lib: LibraryModel,
    e: Seq<SpecItem>,
    pos: int,
    ns: int,
    attrs: Seq<SpecAttribute>,
)
    requires
        0 <= ns < lib.len(),
        spec_read_alias(lib, e, pos, ns, attrs).result is Ok,
    ensures
        ({
            let n = attribute_value(attrs, "name"@).unwrap();
            let l = spec_read_alias(lib, e, pos, ns, attrs).lib;
            &&& attribute_value(attrs, "name"@) is Some
            &&& match find_type(l, ns, n) {
                Some(i) => {
                    &&& 0 <= i < l[ns].types.len()
                    &&& l[ns].types[i].name == n
                    &&& match l[ns].types[i].typ {
                        Some(SpecType::Alias(a)) => {
                            &&& a.name == n
                            &&& a.c_identifier == (match attribute_value(attrs, "type"@) {
                                Some(c) => c,
                                None => n,
                            })
                            &&& spec_single_type(lib, e, pos, ns, None).result matches Ok((Some(t), _))
                                && a.typ == t
                        },
                        _ => false,
                    }
                },
                None => false,
            }
        }),
{
    let n = attribute_value(attrs, "name"@).unwrap();
    lemma_single_type_len(lib, e, pos, ns, None);
    let r = spec_single_type(lib, e, pos, ns, None);
    if let Ok((Some(t), p)) = r.result {
        let c = match attribute_value(attrs, "type"@) {
            Some(c) => c,
            None => n,
        };
        lemma_add_type_found(r.lib, ns, n, SpecType::Alias(crate::library::SpecAlias { name: n, c_identifier: c, typ: t }));
    }
}

/// The transfer-ownership modes by name: `none`, `container` and `full`, and no other.
pub proof fn law_transfer_names(name: Seq<char>)
    ensures
        transfer_named("none"@) == Some(Transfer::Nothing),
        transfer_named("container"@) == Some(Transfer::Container),
        transfer_named("full"@) == Some(Transfer::Full),
        name != "none"@ && name != "container"@ && name != "full"@ ==> transfer_named(name) is None,
{
    reveal_strlit("none");
    reveal_strlit("container");
    reveal_strlit("full");
    assert("container"@ != "none"@) by { assert("container"@.len() != "none"@.len()); }
    assert("full"@ != "none"@) by { assert("full"@[0] != "none"@[0]); }
    assert("full"@ != "container"@) by { assert("full"@.len() != "container"@.len()); }
}

/// A parameter or return value read with a type has the transfer mode that its
/// `transfer-ownership` attribute names (`none` when absent) and that type; one read
/// without a type (a `<varargs>` one) has no name and no transfer. An attribute that
/// names no mode makes reading fail.
pub proof fn law_parameter_transfer(
    lib: LibraryModel,
    e: Seq<SpecItem>,
    pos: int,
    ns: int,
    attrs: Seq<SpecAttribute>,
)
    ensures
        ({
            let mode = match attribute_value(attrs, "transfer-ownership"@) {
                Some(m) => m,
                None => "none"@,
            };
            let r = spec_read_parameter(lib, e, pos, ns, attrs);
            let c = spec_parameter_content(lib, e, pos, ns, None, false);
            &&& transfer_named(mode) is None ==> r.result is Err
            &&& match r.result {
                Ok((prm, _)) => match c.result {
                    Ok(((Some(t), _), _)) => transfer_named(mode) == Some(prm.transfer) && prm.typ == t
                        && prm.name == (match attribute_value(attrs, "name"@) {
                            Some(n) => n,
                            None => ""@,
                        }),
                    _ => prm.transfer == Transfer::Nothing && prm.name == ""@,
                },
                Err(_) => true,
            }
        }),
{
}

/// A hash table type registers its first element type as the key type and its second
/// as the value type, in the same order as its registered name lists them.
pub proof fn law_hash_table_key_then_value(lib: LibraryModel, inner: Seq<crate::library::TypeId>)
    requires
        0 < lib.len() <= usize::MAX,
        lib[INTERNAL_NAMESPACE as int].types.len() < usize::MAX,
        inner.len() == 2,
    ensures
        container(lib, "GLib.HashTable"@, inner) matches Some((l, id)) && id.ns_id == INTERNAL_NAMESPACE
            && 0 <= id.id < l[INTERNAL_NAMESPACE as int].types.len()
            && l[INTERNAL_NAMESPACE as int].types[id.id as int] == (SpecTypeEntry {
                name: "HashTable(#"@ + id_text(inner[0]) + ", #"@ + id_text(inner[1]) + ")"@,
                typ: Some(SpecType::HashTable(inner[0], inner[1])),
            }),
{
    let name = "HashTable(#"@ + id_text(inner[0]) + ", #"@ + id_text(inner[1]) + ")"@;
    law_add_type_then_find(lib, INTERNAL_NAMESPACE as int, name, SpecType::HashTable(inner[0], inner[1]));
    lemma_add_type_found(lib, INTERNAL_NAMESPACE as int, name, SpecType::HashTable(inner[0], inner[1]));
}

/// A constant's type is resolved from the constant's own namespace: a `<constant>`
/// whose content is a single `<type name=N/>` gets the type that `N` names from
/// that namespace (the definition of `N` there, if it has one), and is appended to
/// that namespace's constants with its name and value; reading ends after its
/// closing tag.
pub proof fn law_constant_type_from_its_namespace(
    lib: LibraryModel,
    e: Seq<SpecItem>,
    pos: int,
    ns: int,
    attrs: Seq<SpecAttribute>,
    name: Seq<char>,
    value: Seq<char>,
    referred: Seq<char>,
)
    requires
        0 <= ns < lib.len(),
        attribute_value(attrs, "name"@) == Some(name),
        attribute_value(attrs, "value"@) == Some(value),
        0 <= pos,
        pos + 2 < e.len(),
        e[pos].event is StartElement,
        e[pos].event->StartElement_name == "type"@,
        attribute_value(e[pos].event->StartElement_attributes, "name"@) == Some(referred),
        e[pos + 1].event is EndElement,
        e[pos + 2].event is EndElement,
    ensures
        ({
            let (l, t) = get_type(lib, ns, referred);
            let r = spec_read_constant(lib, e, pos, ns, attrs);
            &&& r.result == Ok::<((), int), crate::events::SpecParseError>(((), pos + 3))
            &&& r.lib == add_constant(l, ns, SpecConstant { name, typ: t, value })
            &&& find_type(lib, ns, referred) matches Some(i) ==> t == type_id(ns, i)
        }),
{
    reveal_strlit("type");
    reveal_strlit("array");
    let el = e[pos].event->StartElement_name;
    let ta = e[pos].event->StartElement_attributes;
    assert(spec_type_args(lib, e, pos + 1, ns, Seq::empty()).result == Ok::<
        (Seq<crate::library::TypeId>, int),
        crate::events::SpecParseError,
    >((Seq::empty(), pos + 2)));
    let (l, t) = get_type(lib, ns, referred);
    assert(spec_read_type(lib, e, pos + 1, ns, el, ta).result == Ok::<
        (crate::library::TypeId, int),
        crate::events::SpecParseError,
    >((t, pos + 2)));
    assert(spec_read_type(lib, e, pos + 1, ns, el, ta).lib == l);
    assert(spec_single_type(l, e, pos + 2, ns, Some(t)).result == Ok::<
        (Option<crate::library::TypeId>, int),
        crate::events::SpecParseError,
    >((Some(t), pos + 3)));
}

// ---------------------------------------------------------------------------
// Reading functions and the content of compound types never removes a namespace
// ---------------------------------------------------------------------------

proof fn lemma_parameter_content_len(
    lib: LibraryModel,
    e: Seq<SpecItem>,
    pos: int,
    ns: int,
    typ: Option<crate::library::TypeId>,
    varargs: bool,
)
    requires
        0 <= ns < lib.len(),
    ensures
        spec_parameter_content(lib, e, pos, ns, typ, varargs).lib.len() >= lib.len(),
    decreases e.len() - pos,
{
    if 0 <= pos < e.len() {
        match e[pos].event {
            SpecEvent::StartElement { name, attributes, .. } => {
                if crate::grammar::spec_is_type_element(name) {
                    if typ is None {
                        lemma_read_type_len(lib, e, pos + 1, ns, name, attributes);
                        let r = spec_read_type(lib, e, pos + 1, ns, name, attributes);
                        if let Ok((t, p)) = r.result {
                            if pos < p <= e.len() {
                                lemma_parameter_content_len(r.lib, e, p, ns, Some(t), varargs);
                            }
                        }
                    }
                } else if name == "varargs"@ || name == "doc"@ {
                    if let Ok(p) = crate::grammar::skip_content(e, pos + 1) {
                        if pos < p <= e.len() {
                            lemma_parameter_content_len(lib, e, p, ns, typ, varargs || name == "varargs"@);
                        }
                    }
                }
            },
            SpecEvent::EndElement => {},
            _ => {
                lemma_parameter_content_len(lib, e, pos + 1, ns, typ, varargs);
            },
        }
    }
}

proof fn lemma_read_parameter_len(lib: LibraryModel, e: Seq<SpecItem>, pos: int, ns: int, attrs: Seq<SpecAttribute>)
    requires
        0 <= ns < lib.len(),
    ensures
        spec_read_parameter(lib, e, pos, ns, attrs).lib.len() >= lib.len(),
{
    lemma_parameter_content_len(lib, e, pos, ns, None, false);
    let r = spec_parameter_content(lib, e, pos, ns, None, false);
    lemma_get_type_len(r.lib, INTERNAL_NAMESPACE as int, "varargs"@);
}

proof fn lemma_read_parameters_len(
    lib: LibraryModel,
    e: Seq<SpecItem>,
    pos: int,
    ns: int,
    params: Seq<crate::library::SpecParameter>,
)
    requires
        0 <= ns < lib.len(),
    ensures
        crate::grammar::spec_read_parameters(lib, e, pos, ns, params).lib.len() >= lib.len(),
    decreases e.len() - pos,
{
    if 0 <= pos < e.len() {
        match e[pos].event {
            SpecEvent::StartElement { name, attributes, .. } => {
                if name == "parameter"@ || name == "instance-parameter"@ {
                    lemma_read_parameter_len(lib, e, pos + 1, ns, attributes);
                    let r = spec_read_parameter(lib, e, pos + 1, ns, attributes);
                    if let Ok((prm, p)) = r.result {
                        if pos < p <= e.len() {
                            lemma_read_parameters_len(r.lib, e, p, ns, params.push(prm));
                        }
                    }
                }
            },
            SpecEvent::EndElement => {},
            _ => {
                lemma_read_parameters_len(lib, e, pos + 1, ns, params);
            },
        }
    }
}

proof fn lemma_function_content_len(
    lib: LibraryModel,
    e: Seq<SpecItem>,
    pos: int,
    ns: int,
    params: Seq<crate::library::SpecParameter>,
    ret: Option<crate::library::SpecParameter>,
)
    requires
        0 <= ns < lib.len(),
    ensures
        crate::grammar::spec_function_content(lib, e, pos, ns, params, ret).lib.len() >= lib.len(),
    decreases e.len() - pos,
{
    if 0 <= pos < e.len() {
        match e[pos].event {
            SpecEvent::StartElement { name, attributes, .. } => {
                if name == "parameters"@ {
                    lemma_read_parameters_len(lib, e, pos + 1, ns, Seq::empty());
                    let r = crate::grammar::spec_read_parameters(lib, e, pos + 1, ns, Seq::empty());
                    if let Ok((ps, p)) = r.result {
                        if pos < p <= e.len() {
                            lemma_function_content_len(r.lib, e, p, ns, params + ps, ret);
                        }
                    }
                } else if name == "return-value"@ {
                    if ret is None {
                        lemma_read_parameter_len(lib, e, pos + 1, ns, attributes);
                        let r = spec_read_parameter(lib, e, pos + 1, ns, attributes);
                        if let Ok((rv, p)) = r.result {
                            if pos < p <= e.len() {
                                lemma_function_content_len(r.lib, e, p, ns, params, Some(rv));
                            }
                        }
                    }
                } else if crate::grammar::spec_is_doc_element(name) {
                    if let Ok(p) = crate::grammar::skip_content(e, pos + 1) {
                        if pos < p <= e.len() {
                            lemma_function_content_len(lib, e, p, ns, params, ret);
                        }
                    }
                }
            },
            SpecEvent::EndElement => {},
            _ => {
                lemma_function_content_len(lib, e, pos + 1, ns, params, ret);
            },
        }
    }
}

proof fn lemma_read_function_len(lib: LibraryModel, e: Seq<SpecItem>, pos: int, ns: int, attrs: Seq<SpecAttribute>)
    requires
        0 <= ns < lib.len(),
    ensures
        spec_read_function(lib, e, pos, ns, attrs).lib.len() >= lib.len(),
{
    lemma_function_content_len(lib, e, pos, ns, Seq::empty(), None);
}

proof fn lemma_read_children_len(
    lib: LibraryModel,
    e: Seq<SpecItem>,
    pos: int,
    ns: int,
    kind: CompoundKind,
    acc: SpecChildren,
)
    requires
        0 <= ns < lib.len(),
    ensures
        spec_read_children(lib, e, pos, ns, kind, acc).lib.len() >= lib.len(),
    decreases e.len() - pos,
{
    if 0 <= pos < e.len() {
        match e[pos].event {
            SpecEvent::StartElement { name, attributes, .. } => {
                match crate::grammar::spec_child_action(kind, name) {
                    crate::grammar::ChildAction::Function => {
                        lemma_read_function_len(lib, e, pos + 1, ns, attributes);
                        let r = spec_read_function(lib, e, pos + 1, ns, attributes);
                        if let Ok((f, p)) = r.result {
                            if pos < p <= e.len() {
                                lemma_read_children_len(
                                    r.lib,
                                    e,
                                    p,
                                    ns,
                                    kind,
                                    SpecChildren { functions: acc.functions.push(f), ..acc },
                                );
                            }
                        }
                    },
                    crate::grammar::ChildAction::Field => {
                        lemma_single_type_len(lib, e, pos + 1, ns, None);
                        let r = crate::grammar::spec_read_field(lib, e, pos + 1, ns, attributes);
                        if let Ok((f, p)) = r.result {
                            if pos < p <= e.len() {
                                lemma_read_children_len(
                                    r.lib,
                                    e,
                                    p,
                                    ns,
                                    kind,
                                    SpecChildren { fields: acc.fields.push(f), ..acc },
                                );
                            }
                        }
                    },
                    crate::grammar::ChildAction::Member => {
                        if let Ok((m, p)) = crate::grammar::spec_read_member(e, pos + 1, attributes) {
                            if pos < p <= e.len() {
                                lemma_read_children_len(
                                    lib,
                                    e,
                                    p,
                                    ns,
                                    kind,
                                    SpecChildren { members: acc.members.push(m), ..acc },
                                );
                            }
                        }
                    },
                    crate::grammar::ChildAction::Skip => {
                        if let Ok(p) = crate::grammar::skip_content(e, pos + 1) {
                            if pos < p <= e.len() {
                                lemma_read_children_len(lib, e, p, ns, kind, acc);
                            }
                        }
                    },
                    crate::grammar::ChildAction::Reject => {},
                }
            },
            SpecEvent::EndElement => {},
            _ => {
                lemma_read_children_len(lib, e, pos + 1, ns, kind, acc);
            },
        }
    }
}

/// The type that a compound type element defines is found under the element's `name`;
/// it is of the element's kind, named by its `type-name` attribute (by its `name`
/// when absent), and holds the functions, fields and members that its children
/// yield, in document order. A record describing a class's type structure
/// (`is-gtype-struct`) defines nothing. Reading ends where its children's reading
/// ended.
pub proof fn law_compound_defines_its_type(
    lib: LibraryModel,
    e: Seq<SpecItem>,
    pos: int,
    ns: int,
    kind: CompoundKind,
    attrs: Seq<SpecAttribute>,
)
    requires
        0 <= ns < lib.len(),
        crate::grammar::spec_read_compound(lib, e, pos, ns, kind, attrs).result is Ok,
    ensures
        ({
            let n = attribute_value(attrs, "name"@).unwrap();
            let g = match attribute_value(attrs, "type-name"@) {
                Some(t) => t,
                None => n,
            };
            let c = spec_read_children(lib, e, pos, ns, kind, crate::grammar::no_children());
            let r = crate::grammar::spec_read_compound(lib, e, pos, ns, kind, attrs);
            let l = r.lib;
            &&& attribute_value(attrs, "name"@) is Some
            &&& match c.result {
                Ok((ch, p)) => {
                    &&& r.result == Ok::<((), int), crate::events::SpecParseError>(((), p))
                    &&& if kind == CompoundKind::Record && attribute_value(attrs, "is-gtype-struct"@) is Some {
                        l == c.lib
                    } else {
                        match find_type(l, ns, n) {
                            Some(i) => {
                                &&& 0 <= i < l[ns].types.len()
                                &&& l[ns].types[i].name == n
                                &&& l[ns].types[i].typ == Some(
                                    match kind {
                                        CompoundKind::Class => SpecType::Class { name: g, functions: ch.functions },
                                        CompoundKind::Record => SpecType::Record { name: g, functions: ch.functions },
                                        CompoundKind::Union => SpecType::Union {
                                            name: g,
                                            fields: ch.fields,
                                            functions: ch.functions,
                                        },
                                        CompoundKind::Interface => SpecType::Interface {
                                            name: g,
                                            functions: ch.functions,
                                        },
                                        CompoundKind::Bitfield => SpecType::Bitfield {
                                            name: g,
                                            members: ch.members,
                                            functions: ch.functions,
                                        },
                                        CompoundKind::Enumeration => SpecType::Enumeration {
                                            name: g,
                                            members: ch.members,
                                            functions: ch.functions,
                                        },
                                    },
                                )
                            },
                            None => false,
                        }
                    }
                },
                Err(_) => false,
            }
        }),
{
    let n = attribute_value(attrs, "name"@).unwrap();
    let g = match attribute_value(attrs, "type-name"@) {
        Some(t) => t,
        None => n,
    };
    lemma_read_children_len(lib, e, pos, ns, kind, crate::grammar::no_children());
    let c = spec_read_children(lib, e, pos, ns, kind, crate::grammar::no_children());
    if let Ok((ch, p)) = c.result {
        lemma_add_type_found(c.lib, ns, n, crate::grammar::compound_type(kind, g, ch));
    }
}

/// A `<field>` child of a `<union>` is read as a field: the field read from it is
/// appended, after those of earlier children, to the fields the union yields.
pub proof fn law_union_reads_field_children(lib: LibraryModel, e: Seq<SpecItem>, pos: int, ns: int, acc: SpecChildren)
    requires
        0 <= pos < e.len(),
        e[pos].event is StartElement,
        e[pos].event->StartElement_name == "field"@,
    ensures
        ({
            let f = crate::grammar::spec_read_field(lib, e, pos + 1, ns, e[pos].event->StartElement_attributes);
            match f.result {
                Ok((fld, p)) => pos < p <= e.len() ==> spec_read_children(lib, e, pos, ns, CompoundKind::Union, acc)
                    == spec_read_children(
                    f.lib,
                    e,
                    p,
                    ns,
                    CompoundKind::Union,
                    SpecChildren { fields: acc.fields.push(fld), ..acc },
                ),
                Err(x) => spec_read_children(lib, e, pos, ns, CompoundKind::Union, acc) == failed::<SpecChildren>(
                    f.lib,
                    x,
                ),
            }
        }),
{
}

/// A `<member>` child of a `<bitfield>` or `<enumeration>` is read as a member: the
/// member read from it is appended, after those of earlier children, to the members
/// the type yields.
pub proof fn law_enumeration_reads_member_children(
    lib: LibraryModel,
    e: Seq<SpecItem>,
    pos: int,
    ns: int,
    kind: CompoundKind,
    acc: SpecChildren,
)
    requires
        kind == CompoundKind::Bitfield || kind == CompoundKind::Enumeration,
        0 <= pos < e.len(),
        e[pos].event is StartElement,
        e[pos].event->StartElement_name == "member"@,
    ensures
        ({
            match crate::grammar::spec_read_member(e, pos + 1, e[pos].event->StartElement_attributes) {
                Ok((m, p)) => pos < p <= e.len() ==> spec_read_children(lib, e, pos, ns, kind, acc)
                    == spec_read_children(lib, e, p, ns, kind, SpecChildren { members: acc.members.push(m), ..acc }),
                Err(x) => spec_read_children(lib, e, pos, ns, kind, acc) == failed::<SpecChildren>(lib, x),
            }
        }),
{
    reveal_strlit("member");
    reveal_strlit("constructor");
    reveal_strlit("function");
    reveal_strlit("method");
    assert("member"@ != "constructor"@) by { assert("member"@.len() != "constructor"@.len()); }
    assert("member"@ != "function"@) by { assert("member"@.len() != "function"@.len()); }
    assert("member"@ != "method"@) by { assert("member"@[3] != "method"@[3]); }
}

/// A member of a bitfield or enumeration has the element's `name` and `value`, and
/// its `identifier` attribute as C identifier (its name when absent).
pub proof fn law_member_attributes(e: Seq<SpecItem>, pos: int, attrs: Seq<SpecAttribute>)
    ensures
        crate::grammar::spec_read_member(e, pos, attrs) matches Ok((m, _)) ==> Some(m.name) == attribute_value(
            attrs,
            "name"@,
        ) && Some(m.value) == attribute_value(attrs, "value"@) && m.c_identifier == (match attribute_value(
            attrs,
            "identifier"@,
        ) {
            Some(c) => c,
            None => m.name,
        }),
{
}

/// A function has the element's `name`, its `identifier` attribute as C identifier
/// (its name when absent), the parameters of its `<parameters>` blocks in document
/// order and its return value.
pub proof fn law_function_attributes(lib: LibraryModel, e: Seq<SpecItem>, pos: int, ns: int, attrs: Seq<SpecAttribute>)
    ensures
        ({
            let r = spec_read_function(lib, e, pos, ns, attrs);
            let c = crate::grammar::spec_function_content(lib, e, pos, ns, Seq::empty(), None);
            match r.result {
                Ok((f, p)) => {
                    &&& Some(f.name) == attribute_value(attrs, "name"@)
                    &&& f.c_identifier == (match attribute_value(attrs, "identifier"@) {
                        Some(ci) => ci,
                        None => f.name,
                    })
                    &&& c.result == Ok::<
                        ((Seq<crate::library::SpecParameter>, Option<crate::library::SpecParameter>), int),
                        crate::events::SpecParseError,
                    >(((f.parameters, Some(f.ret)), p))
                    &&& r.lib == c.lib
                },
                Err(_) => true,
            }
        }),
{
}

/// A field has the element's `name` and the type that its content names, resolved
/// from the field's own namespace.
pub proof fn law_field_attributes(lib: LibraryModel, e: Seq<SpecItem>, pos: int, ns: int, attrs: Seq<SpecAttribute>)
    ensures
        ({
            let r = crate::grammar::spec_read_field(lib, e, pos, ns, attrs);
            match r.result {
                Ok((f, p)) => {
                    &&& Some(f.name) == attribute_value(attrs, "name"@)
                    &&& spec_single_type(lib, e, pos, ns, None).result == Ok::<
                        (Option<crate::library::TypeId>, int),
                        crate::events::SpecParseError,
                    >((Some(f.typ), p))
                },
                Err(_) => true,
            }
        }),
{
}

/// Which reader reads an element directly inside a `<namespace>`: each of the ten
/// element names the library reads goes to its own reader, and any other element is
/// unknown (recorded and skipped).
pub proof fn law_namespace_item_kinds(name: Seq<char>)
    ensures
        spec_namespace_item("class"@) == NamespaceItem::Compound(CompoundKind::Class),
        spec_namespace_item("record"@) == NamespaceItem::Compound(CompoundKind::Record),
        spec_namespace_item("union"@) == NamespaceItem::Compound(CompoundKind::Union),
        spec_namespace_item("interface"@) == NamespaceItem::Compound(CompoundKind::Interface),
        spec_namespace_item("callback"@) == NamespaceItem::Callback,
        spec_namespace_item("bitfield"@) == NamespaceItem::Compound(CompoundKind::Bitfield),
        spec_namespace_item("enumeration"@) == NamespaceItem::Compound(CompoundKind::Enumeration),
        spec_namespace_item("function"@) == NamespaceItem::Function,
        spec_namespace_item("constant"@) == NamespaceItem::Constant,
        spec_namespace_item("alias"@) == NamespaceItem::Alias,
        name != "class"@ && name != "record"@ && name != "union"@ && name != "interface"@ && name != "callback"@ && name != "bitfield"@ && name != "enumeration"@ && name != "function"@ && name != "constant"@ && name != "alias"@ ==> spec_namespace_item(name) == NamespaceItem::Unknown,
{
    reveal_strlit("class");
    reveal_strlit("record");
    reveal_strlit("union");
    reveal_strlit("interface");
    reveal_strlit("callback");
    reveal_strlit("bitfield");
    reveal_strlit("enumeration");
    reveal_strlit("function");
    reveal_strlit("constant");
    reveal_strlit("alias");
    assert("class"@ != "record"@) by { assert("class"@.len() != "record"@.len()); }
    assert("class"@ != "union"@) by { assert("class"@[0] != "union"@[0]); }
    assert("class"@ != "interface"@) by { assert("class"@.len() != "interface"@.len()); }
    assert("class"@ != "callback"@) by { assert("class"@.len() != "callback"@.len()); }
    assert("class"@ != "bitfield"@) by { assert("class"@.len() != "bitfield"@.len()); }
    assert("class"@ != "enumeration"@) by { assert("class"@.len() != "enumeration"@.len()); }
    assert("class"@ != "function"@) by { assert("class"@.len() != "function"@.len()); }
    assert("class"@ != "constant"@) by { assert("class"@.len() != "constant"@.len()); }
    assert("class"@ != "alias"@) by { assert("class"@[0] != "alias"@[0]); }
    assert("record"@ != "union"@) by { assert("record"@.len() != "union"@.len()); }
    assert("record"@ != "interface"@) by { assert("record"@.len() != "interface"@.len()); }
    assert("record"@ != "callback"@) by { assert("record"@.len() != "callback"@.len()); }
    assert("record"@ != "bitfield"@) by { assert("record"@.len() != "bitfield"@.len()); }
    assert("record"@ != "enumeration"@) by { assert("record"@.len() != "enumeration"@.len()); }
    assert("record"@ != "function"@) by { assert("record"@.len() != "function"@.len()); }
    assert("record"@ != "constant"@) by { assert("record"@.len() != "constant"@.len()); }
    assert("record"@ != "alias"@) by { assert("record"@.len() != "alias"@.len()); }
    assert("union"@ != "interface"@) by { assert("union"@.len() != "interface"@.len()); }
    assert("union"@ != "callback"@) by { assert("union"@.len() != "callback"@.len()); }
    assert("union"@ != "bitfield"@) by { assert("union"@.len() != "bitfield"@.len()); }
    assert("union"@ != "enumeration"@) by { assert("union"@.len() != "enumeration"@.len()); }
    assert("union"@ != "function"@) by { assert("union"@.len() != "function"@.len()); }
    assert("union"@ != "constant"@) by { assert("union"@.len() != "constant"@.len()); }
    assert("union"@ != "alias"@) by { assert("union"@[0] != "alias"@[0]); }
    assert("interface"@ != "callback"@) by { assert("interface"@.len() != "callback"@.len()); }
    assert("interface"@ != "bitfield"@) by { assert("interface"@.len() != "bitfield"@.len()); }
    assert("interface"@ != "enumeration"@) by { assert("interface"@.len() != "enumeration"@.len()); }
    assert("interface"@ != "function"@) by { assert("interface"@.len() != "function"@.len()); }
    assert("interface"@ != "constant"@) by { assert("interface"@.len() != "constant"@.len()); }
    assert("interface"@ != "alias"@) by { assert("interface"@.len() != "alias"@.len()); }
    assert("callback"@ != "bitfield"@) by { assert("callback"@[0] != "bitfield"@[0]); }
    assert("callback"@ != "enumeration"@) by { assert("callback"@.len() != "enumeration"@.len()); }
    assert("callback"@ != "function"@) by { assert("callback"@[0] != "function"@[0]); }
    assert("callback"@ != "constant"@) by { assert("callback"@[1] != "constant"@[1]); }
    assert("callback"@ != "alias"@) by { assert("callback"@.len() != "alias"@.len()); }
    assert("bitfield"@ != "enumeration"@) by { assert("bitfield"@.len() != "enumeration"@.len()); }
    assert("bitfield"@ != "function"@) by { assert("bitfield"@[0] != "function"@[0]); }
    assert("bitfield"@ != "constant"@) by { assert("bitfield"@[0] != "constant"@[0]); }
    assert("bitfield"@ != "alias"@) by { assert("bitfield"@.len() != "alias"@.len()); }
    assert("enumeration"@ != "function"@) by { assert("enumeration"@.len() != "function"@.len()); }
    assert("enumeration"@ != "constant"@) by { assert("enumeration"@.len() != "constant"@.len()); }
    assert("enumeration"@ != "alias"@) by { assert("enumeration"@.len() != "alias"@.len()); }
    assert("function"@ != "constant"@) by { assert("function"@[0] != "constant"@[0]); }
    assert("function"@ != "alias"@) by { assert("function"@.len() != "alias"@.len()); }
    assert("constant"@ != "alias"@) by { assert("constant"@.len() != "alias"@.len()); }
}

/// A `<function>` directly in a namespace is appended, after the functions already
/// there, to that namespace's functions; nothing else of the library changes besides
/// what reading the function did.
pub proof fn law_global_function_appended(lib: LibraryModel, e: Seq<SpecItem>, pos: int, ns: int, attrs: Seq<SpecAttribute>)
    requires
        0 <= ns < lib.len(),
    ensures
        ({
            let f = spec_read_function(lib, e, pos, ns, attrs);
            let r = crate::grammar::spec_read_global_function(lib, e, pos, ns, attrs);
            match f.result {
                Ok((fun, p)) => {
                    &&& r.result == Ok::<((), int), crate::events::SpecParseError>(((), p))
                    &&& r.lib.len() == f.lib.len()
                    &&& r.lib[ns].functions == f.lib[ns].functions.push(fun)
                    &&& r.lib[ns].name == f.lib[ns].name
                    &&& r.lib[ns].types == f.lib[ns].types
                    &&& r.lib[ns].constants == f.lib[ns].constants
                    &&& forall|m: int| 0 <= m < r.lib.len() && m != ns ==> r.lib[m] == f.lib[m]
                },
                Err(x) => r == failed::<()>(f.lib, x),
            }
        }),
{
    lemma_read_function_len(lib, e, pos, ns, attrs);
}

/// A `<constant>` is appended, after the constants already there, to its own
/// namespace's constants, with its `name`, its `value` and the type that its content
/// names, resolved from that namespace; nothing else changes besides what reading
/// the type did.
pub proof fn law_constant_appended(lib: LibraryModel, e: Seq<SpecItem>, pos: int, ns: int, attrs: Seq<SpecAttribute>)
    requires
        0 <= ns < lib.len(),
        spec_read_constant(lib, e, pos, ns, attrs).result is Ok,
    ensures
        ({
            let t = spec_single_type(lib, e, pos, ns, None);
            let r = spec_read_constant(lib, e, pos, ns, attrs);
            match t.result {
                Ok((Some(typ), p)) => {
                    &&& r.result == Ok::<((), int), crate::events::SpecParseError>(((), p))
                    &&& r.lib.len() == t.lib.len()
                    &&& r.lib[ns].constants == t.lib[ns].constants.push(
                        SpecConstant {
                            name: attribute_value(attrs, "name"@).unwrap(),
                            typ,
                            value: attribute_value(attrs, "value"@).unwrap(),
                        },
                    )
                    &&& attribute_value(attrs, "name"@) is Some
                    &&& attribute_value(attrs, "value"@) is Some
                    &&& r.lib[ns].name == t.lib[ns].name
                    &&& r.lib[ns].types == t.lib[ns].types
                    &&& r.lib[ns].functions == t.lib[ns].functions
                    &&& forall|m: int| 0 <= m < r.lib.len() && m != ns ==> r.lib[m] == t.lib[m]
                },
                _ => false,
            }
        }),
{
    lemma_single_type_len(lib, e, pos, ns, None);
}

/// A `<callback>` defines, under its `name`, a callback type holding the function
/// read from it, which has that same name.
pub proof fn law_callback_defined(lib: LibraryModel, e: Seq<SpecItem>, pos: int, ns: int, attrs: Seq<SpecAttribute>)
    requires
        0 <= ns < lib.len(),
        crate::grammar::spec_read_callback(lib, e, pos, ns, attrs).result is Ok,
    ensures
        ({
            let n = attribute_value(attrs, "name"@).unwrap();
            let l = crate::grammar::spec_read_callback(lib, e, pos, ns, attrs).lib;
            &&& attribute_value(attrs, "name"@) is Some
            &&& match spec_read_function(lib, e, pos, ns, attrs).result {
                Ok((f, _)) => {
                    &&& f.name == n
                    &&& match find_type(l, ns, n) {
                        Some(i) => 0 <= i < l[ns].types.len() && l[ns].types[i] == (SpecTypeEntry {
                            name: n,
                            typ: Some(SpecType::Callback(f)),
                        }),
                        None => false,
                    }
                },
                Err(_) => false,
            }
        }),
{
    let n = attribute_value(attrs, "name"@).unwrap();
    lemma_read_function_len(lib, e, pos, ns, attrs);
    let f = spec_read_function(lib, e, pos, ns, attrs);
    if let Ok((fun, p)) = f.result {
        lemma_add_type_found(f.lib, ns, n, SpecType::Callback(fun));
    }
}

/// The container types: `array` of one element type, `GLib.HashTable` of a key and a
/// value type, `GLib.List` and `GLib.SList` of one element type. Each is registered in
/// the internal namespace under a name that lists its element types in order, and
/// holds them in that order; nothing else is a container.
pub proof fn law_container_registered(lib: LibraryModel, name: Seq<char>, inner: Seq<crate::library::TypeId>)
    requires
        0 < lib.len() <= usize::MAX,
        lib[INTERNAL_NAMESPACE as int].types.len() < usize::MAX,
    ensures
        match container(lib, name, inner) {
            Some((l, id)) => {
                let entry = l[INTERNAL_NAMESPACE as int].types[id.id as int];
                &&& id.ns_id == INTERNAL_NAMESPACE
                &&& 0 <= id.id < l[INTERNAL_NAMESPACE as int].types.len()
                &&& l.len() == lib.len()
                &&& {
                    ||| name == "array"@ && inner.len() == 1 && entry == (SpecTypeEntry {
                        name: "[#"@ + id_text(inner[0]) + "]"@,
                        typ: Some(SpecType::Array(inner[0])),
                    })
                    ||| name == "GLib.HashTable"@ && inner.len() == 2 && entry == (SpecTypeEntry {
                        name: "HashTable(#"@ + id_text(inner[0]) + ", #"@ + id_text(inner[1]) + ")"@,
                        typ: Some(SpecType::HashTable(inner[0], inner[1])),
                    })
                    ||| name == "GLib.List"@ && inner.len() == 1 && entry == (SpecTypeEntry {
                        name: "List(#"@ + id_text(inner[0]) + ")"@,
                        typ: Some(SpecType::List(inner[0])),
                    })
                    ||| name == "GLib.SList"@ && inner.len() == 1 && entry == (SpecTypeEntry {
                        name: "SList(#"@ + id_text(inner[0]) + ")"@,
                        typ: Some(SpecType::SList(inner[0])),
                    })
                }
            },
            None => !(name == "array"@ && inner.len() == 1) && !(name == "GLib.HashTable"@ && inner.len() == 2)
                && !(name == "GLib.List"@ && inner.len() == 1) && !(name == "GLib.SList"@ && inner.len() == 1),
        },
{
    reveal_strlit("array");
    reveal_strlit("GLib.HashTable");
    reveal_strlit("GLib.List");
    reveal_strlit("GLib.SList");
    assert("array"@ != "GLib.HashTable"@) by { assert("array"@.len() != "GLib.HashTable"@.len()); }
    assert("array"@ != "GLib.List"@) by { assert("array"@.len() != "GLib.List"@.len()); }
    assert("array"@ != "GLib.SList"@) by { assert("array"@.len() != "GLib.SList"@.len()); }
    assert("GLib.HashTable"@ != "GLib.List"@) by { assert("GLib.HashTable"@.len() != "GLib.List"@.len()); }
    assert("GLib.HashTable"@ != "GLib.SList"@) by { assert("GLib.HashTable"@.len() != "GLib.SList"@.len()); }
    assert("GLib.List"@ != "GLib.SList"@) by { assert("GLib.List"@.len() != "GLib.SList"@.len()); }
    if let Some((n, t)) = crate::library::container_type(name, inner) {
        law_add_type_then_find(lib, INTERNAL_NAMESPACE as int, n, t);
    }
}

/// A `<type name=N>` reference with no element types is resolved from the namespace it
/// is read in: it gives the type that `get_type` finds or declares for `N` there, and
/// reading ends after its closing tag.
pub proof fn law_type_reference(
    lib: LibraryModel,
    e: Seq<SpecItem>,
    pos: int,
    ns: int,
    attrs: Seq<SpecAttribute>,
    name: Seq<char>,
)
    requires
        0 <= pos < e.len(),
        e[pos].event is EndElement,
        attribute_value(attrs, "name"@) == Some(name),
    ensures
        spec_read_type(lib, e, pos, ns, "type"@, attrs) == crate::grammar::done(
            get_type(lib, ns, name).0,
            get_type(lib, ns, name).1,
            pos + 1,
        ),
{
    reveal_strlit("type");
    reveal_strlit("array");
    assert("type"@ != "array"@) by { assert("type"@.len() != "array"@.len()); }
}

/// The element types nested in a type reference are collected in document order
/// after those collected before; what is collected before changes nothing else.
pub proof fn law_type_args_in_order(
    lib: LibraryModel,
    e: Seq<SpecItem>,
    pos: int,
    ns: int,
    args: Seq<crate::library::TypeId>,
)
    ensures
        ({
            let a = spec_type_args(lib, e, pos, ns, args);
            let b = spec_type_args(lib, e, pos, ns, Seq::empty());
            &&& a.lib == b.lib
            &&& match (a.result, b.result) {
                (Ok((xa, p)), Ok((xb, q))) => xa == args + xb && p == q,
                (Err(x), Err(y)) => x == y,
                _ => false,
            }
        }),
    decreases e.len() - pos,
{
    let empty = Seq::<crate::library::TypeId>::empty();
    if 0 <= pos < e.len() {
        match e[pos].event {
            SpecEvent::StartElement { name, attributes, .. } => {
                if crate::grammar::spec_is_type_element(name) {
                    let r = spec_read_type(lib, e, pos + 1, ns, name, attributes);
                    if let Ok((t, p)) = r.result {
                        if pos < p <= e.len() {
                            law_type_args_in_order(r.lib, e, p, ns, args.push(t));
                            law_type_args_in_order(r.lib, e, p, ns, empty.push(t));
                            let rest = spec_type_args(r.lib, e, p, ns, empty);
                            if let Ok((xs, _)) = rest.result {
                                assert(args.push(t) + xs =~= args + (empty.push(t) + xs));
                            }
                        }
                    }
                }
            },
            SpecEvent::EndElement => {
                assert(args + empty =~= args);
            },
            _ => {
                if crate::grammar::interruption(e[pos]) is None {
                    law_type_args_in_order(lib, e, pos + 1, ns, args);
                }
            },
        }
    }
}

/// An element without the attribute it needs fails at once, reported at its opening
/// tag, with the library unchanged: a compound type, callback, function, constant,
/// field, member or namespace without `name`, a constant or member without `value`,
/// and a parameter whose `transfer-ownership` names no mode. An alias without `name`
/// is reported as a constant without one.
pub proof fn law_missing_attributes(
    lib: LibraryModel,
    e: Seq<SpecItem>,
    pos: int,
    ns: int,
    kind: CompoundKind,
    attrs: Seq<SpecAttribute>,
    seen: Seq<crate::events::SpecUnknown>,
)
    ensures
        attribute_value(attrs, "name"@) is None ==> {
            &&& crate::grammar::spec_read_compound(lib, e, pos, ns, kind, attrs) == failed::<()>(
                lib,
                error_at(
                    e,
                    pos,
                    SpecErrorKind::Missing(
                        match kind {
                            CompoundKind::Class => MissingAttribute::ClassName,
                            CompoundKind::Record => MissingAttribute::RecordName,
                            CompoundKind::Union => MissingAttribute::UnionName,
                            CompoundKind::Interface => MissingAttribute::InterfaceName,
                            CompoundKind::Bitfield => MissingAttribute::BitfieldName,
                            CompoundKind::Enumeration => MissingAttribute::EnumerationName,
                        },
                    ),
                ),
            )
            &&& crate::grammar::spec_read_callback(lib, e, pos, ns, attrs) == failed::<()>(
                lib,
                error_at(e, pos, SpecErrorKind::Missing(MissingAttribute::CallbackName)),
            )
            &&& spec_read_function(lib, e, pos, ns, attrs) == failed::<crate::library::SpecFunction>(
                lib,
                error_at(e, pos, SpecErrorKind::Missing(MissingAttribute::FunctionName)),
            )
            &&& spec_read_constant(lib, e, pos, ns, attrs) == failed::<()>(
                lib,
                error_at(e, pos, SpecErrorKind::Missing(MissingAttribute::ConstantName)),
            )
            &&& spec_read_alias(lib, e, pos, ns, attrs) == failed::<()>(
                lib,
                error_at(e, pos, SpecErrorKind::Missing(MissingAttribute::ConstantName)),
            )
            &&& crate::grammar::spec_read_field(lib, e, pos, ns, attrs) == failed::<crate::library::SpecField>(
                lib,
                error_at(e, pos, SpecErrorKind::Missing(MissingAttribute::FieldName)),
            )
            &&& crate::grammar::spec_read_member(e, pos, attrs) == Err::<(crate::library::SpecMember, int), _>(
                error_at(e, pos, SpecErrorKind::Missing(MissingAttribute::MemberName)),
            )
            &&& crate::grammar::spec_read_namespace(lib, e, pos, attrs, seen) == (crate::grammar::Reading::<()> {
                lib,
                notices: seen,
                result: Err(error_at(e, pos, SpecErrorKind::Missing(MissingAttribute::NamespaceName))),
            })
        },
        attribute_value(attrs, "name"@) is Some && attribute_value(attrs, "value"@) is None ==> {
            &&& spec_read_constant(lib, e, pos, ns, attrs) == failed::<()>(
                lib,
                error_at(e, pos, SpecErrorKind::Missing(MissingAttribute::ConstantValue)),
            )
            &&& crate::grammar::spec_read_member(e, pos, attrs) == Err::<(crate::library::SpecMember, int), _>(
                error_at(e, pos, SpecErrorKind::Missing(MissingAttribute::MemberValue)),
            )
        },
        attribute_value(attrs, "transfer-ownership"@) matches Some(m) && transfer_named(m) is None
            ==> spec_read_parameter(lib, e, pos, ns, attrs) == failed::<crate::library::SpecParameter>(
            lib,
            error_at(e, pos, SpecErrorKind::UnknownTransfer),
        ),
{
}

/// Element types given to a type that is no container make reading the type fail,
/// reported at its opening tag, with the library as reading the element types left it.
pub proof fn law_unknown_container(
    lib: LibraryModel,
    e: Seq<SpecItem>,
    pos: int,
    ns: int,
    attrs: Seq<SpecAttribute>,
    name: Seq<char>,
)
    requires
        attribute_value(attrs, "name"@) == Some(name),
    ensures
        ({
            let a = spec_type_args(lib, e, pos, ns, Seq::empty());
            match a.result {
                Ok((args, _)) => args.len() > 0 && container(a.lib, name, args) is None ==> spec_read_type(
                    lib,
                    e,
                    pos,
                    ns,
                    "type"@,
                    attrs,
                ) == failed::<crate::library::TypeId>(a.lib, error_at(e, pos, SpecErrorKind::UnknownContainer)),
                Err(_) => true,
            }
        }),
{
    reveal_strlit("type");
    reveal_strlit("array");
    assert("type"@ != "array"@) by { assert("type"@.len() != "array"@.len()); }
}

} // verus!
