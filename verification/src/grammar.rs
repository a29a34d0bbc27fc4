//! What reading a repository document means, stated over the events of the
//! document and the library model.
//!
//! Each element reader is given the events, the index of the event after the
//! element's opening tag, and the library; it gives back the library after
//! reading and either the value read with the index after the element's closing
//! tag, or the error that stopped it. Errors carry the position of the last event
//! consumed when they were found.

use vstd::prelude::*;
use crate::events::{
    attribute_value, MissingAttribute, SpecAttribute, SpecErrorKind, SpecEvent, SpecItem,
    SpecParseError, SpecUnknown,
};
use crate::library::{
    add_constant, add_function, add_type, container, find_namespace, get_namespace, get_type,
    rename_namespace, transfer_named, LibraryModel, SpecAlias, SpecConstant, SpecField,
    SpecFunction, SpecMember, SpecParameter, SpecType, Transfer, TypeId, INTERNAL_NAMESPACE,
};

verus! {

/// The outcome of reading an element: the library afterwards, and the value read
/// with the index of the next event, or an error.
pub struct Step<T> {
    pub lib: LibraryModel,
    pub result: Result<(T, int), SpecParseError>,
}

pub open spec fn failed<T>(lib: LibraryModel, err: SpecParseError) -> Step<T> {
    Step { lib, result: Err(err) }
}

pub open spec fn done<T>(lib: LibraryModel, value: T, next: int) -> Step<T> {
    Step { lib, result: Ok((value, next)) }
}

/// Past the last event, a reader sees the end of the document, reported at the
/// position of the last event.
pub open spec fn end_item(e: Seq<SpecItem>) -> SpecItem {
    if e.len() > 0 {
        SpecItem { event: SpecEvent::EndDocument, row: e.last().row, column: e.last().column }
    } else {
        SpecItem { event: SpecEvent::EndDocument, row: 0, column: 0 }
    }
}

pub open spec fn event_at(e: Seq<SpecItem>, i: int) -> SpecItem {
    if 0 <= i < e.len() {
        e[i]
    } else {
        end_item(e)
    }
}

/// An error found after `consumed` events were read, at the position of the last of them.
pub open spec fn error_at(e: Seq<SpecItem>, consumed: int, kind: SpecErrorKind) -> SpecParseError {
    let it = event_at(e, consumed - 1);
    SpecParseError { kind, row: it.row, column: it.column }
}

/// The error of running out of events inside an element.
pub open spec fn end_error(e: Seq<SpecItem>) -> SpecParseError {
    SpecParseError { kind: SpecErrorKind::UnexpectedEnd, row: end_item(e).row, column: end_item(e).column }
}

/// Inside an element, an event that is neither an opening nor a closing tag stops
/// reading if it is an XML error or the end of the document, and is passed over
/// otherwise.
pub open spec fn interruption(it: SpecItem) -> Option<SpecParseError> {
    match it.event {
        SpecEvent::Error(m) => Some(SpecParseError { kind: SpecErrorKind::Xml(m), row: it.row, column: it.column }),
        SpecEvent::EndDocument => Some(
            SpecParseError { kind: SpecErrorKind::UnexpectedEnd, row: it.row, column: it.column },
        ),
        _ => None,
    }
}

/// A reader that came back at `next` lets its caller go on: it consumed at least one
/// event and no more than there are.
pub open spec fn advanced(e: Seq<SpecItem>, pos: int, next: int) -> bool {
    pos < next <= e.len()
}

pub open spec fn spec_is_type_element(n: Seq<char>) -> bool {
    n == "type"@ || n == "array"@
}

pub open spec fn spec_is_doc_element(n: Seq<char>) -> bool {
    n == "doc"@ || n == "doc-deprecated"@
}

pub open spec fn spec_is_function_element(n: Seq<char>) -> bool {
    n == "constructor"@ || n == "function"@ || n == "method"@
}

/// Skips the rest of an element, nested elements included; the index after its
/// closing tag.
pub open spec fn skip_content(e: Seq<SpecItem>, pos: int) -> Result<int, SpecParseError>
    decreases e.len() - pos,
{
    if !(0 <= pos < e.len()) {
        Err(end_error(e))
    } else {
        match e[pos].event {
            SpecEvent::StartElement { .. } => match skip_content(e, pos + 1) {
                Err(x) => Err(x),
                Ok(p) => if advanced(e, pos, p) {
                    skip_content(e, p)
                } else {
                    Err(end_error(e))
                },
            },
            SpecEvent::EndElement => Ok(pos + 1),
            _ => match interruption(e[pos]) {
                Some(x) => Err(x),
                None => skip_content(e, pos + 1),
            },
        }
    }
}

// ---------------------------------------------------------------------------
// Types
// ---------------------------------------------------------------------------

/// A `<type>` or `<array>` element: a container of its element types if it has any,
/// else the type that its name refers to from namespace `ns`.
pub open spec fn spec_read_type(
    lib: LibraryModel,
    e: Seq<SpecItem>,
    pos: int,
    ns: int,
    element: Seq<char>,
    attrs: Seq<SpecAttribute>,
) -> Step<TypeId>
    decreases e.len() - pos, 1int,
{
    let name = if element == "array"@ {
        Some("array"@)
    } else {
        attribute_value(attrs, "name"@)
    };
    match name {
        None => failed(lib, error_at(e, pos, SpecErrorKind::Missing(MissingAttribute::TypeName))),
        Some(name) => {
            let r = spec_type_args(lib, e, pos, ns, Seq::empty());
            match r.result {
                Err(x) => failed(r.lib, x),
                Ok((args, p)) => if args.len() > 0 {
                    match container(r.lib, name, args) {
                        Some((l, t)) => done(l, t, p),
                        None => failed(r.lib, error_at(e, pos, SpecErrorKind::UnknownContainer)),
                    }
                } else {
                    let (l, t) = get_type(r.lib, ns, name);
                    done(l, t, p)
                },
            }
        },
    }
}

/// The element types nested in a `<type>` or `<array>` element.
pub open spec fn spec_type_args(
    lib: LibraryModel,
    e: Seq<SpecItem>,
    pos: int,
    ns: int,
    args: Seq<TypeId>,
) -> Step<Seq<TypeId>>
    decreases e.len() - pos, 0int,
{
    if !(0 <= pos < e.len()) {
        failed(lib, end_error(e))
    } else {
        match e[pos].event {
            SpecEvent::StartElement { name, attributes, .. } => if spec_is_type_element(name) {
                let r = spec_read_type(lib, e, pos + 1, ns, name, attributes);
                match r.result {
                    Err(x) => failed(r.lib, x),
                    Ok((t, p)) => if advanced(e, pos, p) {
                        spec_type_args(r.lib, e, p, ns, args.push(t))
                    } else {
                        failed(r.lib, end_error(e))
                    },
                }
            } else {
                failed(lib, error_at(e, pos + 1, SpecErrorKind::UnexpectedElement(name)))
            },
            SpecEvent::EndElement => done(lib, args, pos + 1),
            _ => match interruption(e[pos]) {
                Some(x) => failed(lib, x),
                None => spec_type_args(lib, e, pos + 1, ns, args),
            },
        }
    }
}

/// The content of an element that holds at most one `<type>` or `<array>` element,
/// besides documentation: that type, if present.
pub open spec fn spec_single_type(
    lib: LibraryModel,
    e: Seq<SpecItem>,
    pos: int,
    ns: int,
    typ: Option<TypeId>,
) -> Step<Option<TypeId>>
    decreases e.len() - pos,
{
    if !(0 <= pos < e.len()) {
        failed(lib, end_error(e))
    } else {
        match e[pos].event {
            SpecEvent::StartElement { name, attributes, .. } => if spec_is_type_element(name) {
                if typ is Some {
                    failed(lib, error_at(e, pos + 1, SpecErrorKind::TooManyTypes))
                } else {
                    let r = spec_read_type(lib, e, pos + 1, ns, name, attributes);
                    match r.result {
                        Err(x) => failed(r.lib, x),
                        Ok((t, p)) => if advanced(e, pos, p) {
                            spec_single_type(r.lib, e, p, ns, Some(t))
                        } else {
                            failed(r.lib, end_error(e))
                        },
                    }
                }
            } else if spec_is_doc_element(name) {
                match skip_content(e, pos + 1) {
                    Err(x) => failed(lib, x),
                    Ok(p) => if advanced(e, pos, p) {
                        spec_single_type(lib, e, p, ns, typ)
                    } else {
                        failed(lib, end_error(e))
                    },
                }
            } else {
                failed(lib, error_at(e, pos + 1, SpecErrorKind::UnexpectedElement(name)))
            },
            SpecEvent::EndElement => done(lib, typ, pos + 1),
            _ => match interruption(e[pos]) {
                Some(x) => failed(lib, x),
                None => spec_single_type(lib, e, pos + 1, ns, typ),
            },
        }
    }
}

// ---------------------------------------------------------------------------
// Parameters and functions
// ---------------------------------------------------------------------------

/// A `<parameter>`, `<instance-parameter>` or `<return-value>` element.
pub open spec fn spec_read_parameter(
    lib: LibraryModel,
    e: Seq<SpecItem>,
    pos: int,
    ns: int,
    attrs: Seq<SpecAttribute>,
) -> Step<SpecParameter> {
    let name = match attribute_value(attrs, "name"@) {
        Some(n) => n,
        None => ""@,
    };
    let mode = match attribute_value(attrs, "transfer-ownership"@) {
        Some(m) => m,
        None => "none"@,
    };
    match transfer_named(mode) {
        None => failed(lib, error_at(e, pos, SpecErrorKind::UnknownTransfer)),
        Some(transfer) => {
            let r = spec_parameter_content(lib, e, pos, ns, None, false);
            match r.result {
                Err(x) => failed(r.lib, x),
                Ok(((typ, varargs), p)) => match typ {
                    Some(t) => done(r.lib, SpecParameter { name, typ: t, transfer }, p),
                    None => if varargs {
                        let (l, t) = get_type(r.lib, INTERNAL_NAMESPACE as int, "varargs"@);
                        done(l, SpecParameter { name: ""@, typ: t, transfer: Transfer::Nothing }, p)
                    } else {
                        failed(r.lib, error_at(e, p, SpecErrorKind::MissingType))
                    },
                },
            }
        },
    }
}

/// The content of a parameter: its type, if any, and whether it holds `<varargs>`.
pub open spec fn spec_parameter_content(
    lib: LibraryModel,
    e: Seq<SpecItem>,
    pos: int,
    ns: int,
    typ: Option<TypeId>,
    varargs: bool,
) -> Step<(Option<TypeId>, bool)>
    decreases e.len() - pos,
{
    if !(0 <= pos < e.len()) {
        failed(lib, end_error(e))
    } else {
        match e[pos].event {
            SpecEvent::StartElement { name, attributes, .. } => if spec_is_type_element(name) {
                if typ is Some {
                    failed(lib, error_at(e, pos + 1, SpecErrorKind::TooManyTypes))
                } else {
                    let r = spec_read_type(lib, e, pos + 1, ns, name, attributes);
                    match r.result {
                        Err(x) => failed(r.lib, x),
                        Ok((t, p)) => if advanced(e, pos, p) {
                            spec_parameter_content(r.lib, e, p, ns, Some(t), varargs)
                        } else {
                            failed(r.lib, end_error(e))
                        },
                    }
                }
            } else if name == "varargs"@ || name == "doc"@ {
                match skip_content(e, pos + 1) {
                    Err(x) => failed(lib, x),
                    Ok(p) => if advanced(e, pos, p) {
                        spec_parameter_content(lib, e, p, ns, typ, varargs || name == "varargs"@)
                    } else {
                        failed(lib, end_error(e))
                    },
                }
            } else {
                failed(lib, error_at(e, pos + 1, SpecErrorKind::UnexpectedElement(name)))
            },
            SpecEvent::EndElement => done(lib, (typ, varargs), pos + 1),
            _ => match interruption(e[pos]) {
                Some(x) => failed(lib, x),
                None => spec_parameter_content(lib, e, pos + 1, ns, typ, varargs),
            },
        }
    }
}

/// A `<parameters>` element: its parameters, in order, appended to `params`.
pub open spec fn spec_read_parameters(
    lib: LibraryModel,
    e: Seq<SpecItem>,
    pos: int,
    ns: int,
    params: Seq<SpecParameter>,
) -> Step<Seq<SpecParameter>>
    decreases e.len() - pos,
{
    if !(0 <= pos < e.len()) {
        failed(lib, end_error(e))
    } else {
        match e[pos].event {
            SpecEvent::StartElement { name, attributes, .. } => if name == "parameter"@ || name
                == "instance-parameter"@ {
                let r = spec_read_parameter(lib, e, pos + 1, ns, attributes);
                match r.result {
                    Err(x) => failed(r.lib, x),
                    Ok((prm, p)) => if advanced(e, pos, p) {
                        spec_read_parameters(r.lib, e, p, ns, params.push(prm))
                    } else {
                        failed(r.lib, end_error(e))
                    },
                }
            } else {
                failed(lib, error_at(e, pos + 1, SpecErrorKind::UnexpectedElement(name)))
            },
            SpecEvent::EndElement => done(lib, params, pos + 1),
            _ => match interruption(e[pos]) {
                Some(x) => failed(lib, x),
                None => spec_read_parameters(lib, e, pos + 1, ns, params),
            },
        }
    }
}

/// A function element (`<function>`, `<method>`, `<constructor>`, `<callback>`).
pub open spec fn spec_read_function(
    lib: LibraryModel,
    e: Seq<SpecItem>,
    pos: int,
    ns: int,
    attrs: Seq<SpecAttribute>,
) -> Step<SpecFunction> {
    match attribute_value(attrs, "name"@) {
        None => failed(lib, error_at(e, pos, SpecErrorKind::Missing(MissingAttribute::FunctionName))),
        Some(name) => {
            let c_identifier = match attribute_value(attrs, "identifier"@) {
                Some(c) => c,
                None => name,
            };
            let r = spec_function_content(lib, e, pos, ns, Seq::empty(), None);
            match r.result {
                Err(x) => failed(r.lib, x),
                Ok(((parameters, ret), p)) => match ret {
                    Some(ret) => done(r.lib, SpecFunction { name, c_identifier, parameters, ret }, p),
                    None => failed(r.lib, error_at(e, p, SpecErrorKind::MissingReturnValue)),
                },
            }
        },
    }
}

/// The content of a function: its parameters and its return value, if present.
pub open spec fn spec_function_content(
    lib: LibraryModel,
    e: Seq<SpecItem>,
    pos: int,
    ns: int,
    params: Seq<SpecParameter>,
    ret: Option<SpecParameter>,
) -> Step<(Seq<SpecParameter>, Option<SpecParameter>)>
    decreases e.len() - pos,
{
    if !(0 <= pos < e.len()) {
        failed(lib, end_error(e))
    } else {
        match e[pos].event {
            SpecEvent::StartElement { name, attributes, .. } => if name == "parameters"@ {
                let r = spec_read_parameters(lib, e, pos + 1, ns, Seq::empty());
                match r.result {
                    Err(x) => failed(r.lib, x),
                    Ok((ps, p)) => if advanced(e, pos, p) {
                        spec_function_content(r.lib, e, p, ns, params + ps, ret)
                    } else {
                        failed(r.lib, end_error(e))
                    },
                }
            } else if name == "return-value"@ {
                if ret is Some {
                    failed(lib, error_at(e, pos + 1, SpecErrorKind::TooManyReturnValues))
                } else {
                    let r = spec_read_parameter(lib, e, pos + 1, ns, attributes);
                    match r.result {
                        Err(x) => failed(r.lib, x),
                        Ok((rv, p)) => if advanced(e, pos, p) {
                            spec_function_content(r.lib, e, p, ns, params, Some(rv))
                        } else {
                            failed(r.lib, end_error(e))
                        },
                    }
                }
            } else if spec_is_doc_element(name) {
                match skip_content(e, pos + 1) {
                    Err(x) => failed(lib, x),
                    Ok(p) => if advanced(e, pos, p) {
                        spec_function_content(lib, e, p, ns, params, ret)
                    } else {
                        failed(lib, end_error(e))
                    },
                }
            } else {
                failed(lib, error_at(e, pos + 1, SpecErrorKind::UnexpectedElement(name)))
            },
            SpecEvent::EndElement => done(lib, (params, ret), pos + 1),
            _ => match interruption(e[pos]) {
                Some(x) => failed(lib, x),
                None => spec_function_content(lib, e, pos + 1, ns, params, ret),
            },
        }
    }
}

// ---------------------------------------------------------------------------
// Members and fields
// ---------------------------------------------------------------------------

/// The content of a `<member>` element: documentation only.
pub open spec fn spec_member_content(e: Seq<SpecItem>, pos: int) -> Result<int, SpecParseError>
    decreases e.len() - pos,
{
    if !(0 <= pos < e.len()) {
        Err(end_error(e))
    } else {
        match e[pos].event {
            SpecEvent::StartElement { name, .. } => if spec_is_doc_element(name) {
                match skip_content(e, pos + 1) {
                    Err(x) => Err(x),
                    Ok(p) => if advanced(e, pos, p) {
                        spec_member_content(e, p)
                    } else {
                        Err(end_error(e))
                    },
                }
            } else {
                Err(error_at(e, pos + 1, SpecErrorKind::UnexpectedElement(name)))
            },
            SpecEvent::EndElement => Ok(pos + 1),
            _ => match interruption(e[pos]) {
                Some(x) => Err(x),
                None => spec_member_content(e, pos + 1),
            },
        }
    }
}

/// A `<member>` of an enumeration or bitfield.
pub open spec fn spec_read_member(e: Seq<SpecItem>, pos: int, attrs: Seq<SpecAttribute>) -> Result<
    (SpecMember, int),
    SpecParseError,
> {
    match attribute_value(attrs, "name"@) {
        None => Err(error_at(e, pos, SpecErrorKind::Missing(MissingAttribute::MemberName))),
        Some(name) => match attribute_value(attrs, "value"@) {
            None => Err(error_at(e, pos, SpecErrorKind::Missing(MissingAttribute::MemberValue))),
            Some(value) => {
                let c_identifier = match attribute_value(attrs, "identifier"@) {
                    Some(c) => c,
                    None => name,
                };
                match spec_member_content(e, pos) {
                    Err(x) => Err(x),
                    Ok(p) => Ok((SpecMember { name, value, c_identifier }, p)),
                }
            },
        },
    }
}

/// A `<field>` of a union.
pub open spec fn spec_read_field(
    lib: LibraryModel,
    e: Seq<SpecItem>,
    pos: int,
    ns: int,
    attrs: Seq<SpecAttribute>,
) -> Step<SpecField> {
    match attribute_value(attrs, "name"@) {
        None => failed(lib, error_at(e, pos, SpecErrorKind::Missing(MissingAttribute::FieldName))),
        Some(name) => {
            let r = spec_single_type(lib, e, pos, ns, None);
            match r.result {
                Err(x) => failed(r.lib, x),
                Ok((typ, p)) => match typ {
                    Some(t) => done(r.lib, SpecField { name, typ: t }, p),
                    None => failed(r.lib, error_at(e, p, SpecErrorKind::MissingType)),
                },
            }
        },
    }
}

// ---------------------------------------------------------------------------
// Compound types: classes, records, unions, interfaces, bitfields, enumerations
// ---------------------------------------------------------------------------

/// The kinds of type elements whose content is a list of functions, fields or members.
#[derive(Clone, Copy, PartialEq, Eq, Structural, Debug)]
pub enum CompoundKind {
    Class,
    Record,
    Union,
    Interface,
    Bitfield,
    Enumeration,
}

/// What an element inside a compound type element is read as.
#[derive(Clone, Copy, PartialEq, Eq, Structural, Debug)]
pub enum ChildAction {
    Function,
    Field,
    Member,
    Skip,
    Reject,
}

pub open spec fn spec_child_action(kind: CompoundKind, name: Seq<char>) -> ChildAction {
    match kind {
        CompoundKind::Class => if spec_is_function_element(name) {
            ChildAction::Function
        } else if name == "field"@ || name == "property"@ || name == "implements"@ || name
            == "signal"@ || name == "virtual-method"@ || spec_is_doc_element(name) {
            ChildAction::Skip
        } else {
            ChildAction::Reject
        },
        CompoundKind::Record => if spec_is_function_element(name) {
            ChildAction::Function
        } else if name == "field"@ || name == "union"@ || spec_is_doc_element(name) {
            ChildAction::Skip
        } else {
            ChildAction::Reject
        },
        CompoundKind::Union => if name == "field"@ {
            ChildAction::Field
        } else if spec_is_function_element(name) {
            ChildAction::Function
        } else if name == "record"@ || spec_is_doc_element(name) {
            ChildAction::Skip
        } else {
            ChildAction::Reject
        },
        CompoundKind::Interface => if spec_is_function_element(name) {
            ChildAction::Function
        } else {
            ChildAction::Skip
        },
        CompoundKind::Bitfield | CompoundKind::Enumeration => if name == "member"@ {
            ChildAction::Member
        } else if spec_is_function_element(name) {
            ChildAction::Function
        } else if spec_is_doc_element(name) {
            ChildAction::Skip
        } else {
            ChildAction::Reject
        },
    }
}

/// The attribute whose absence a compound type element reports.
pub open spec fn name_attribute(kind: CompoundKind) -> MissingAttribute {
    match kind {
        CompoundKind::Class => MissingAttribute::ClassName,
        CompoundKind::Record => MissingAttribute::RecordName,
        CompoundKind::Union => MissingAttribute::UnionName,
        CompoundKind::Interface => MissingAttribute::InterfaceName,
        CompoundKind::Bitfield => MissingAttribute::BitfieldName,
        CompoundKind::Enumeration => MissingAttribute::EnumerationName,
    }
}

/// What the content of a compound type element yields, in document order.
#[verifier::ext_equal]
pub struct SpecChildren {
    pub fields: Seq<SpecField>,
    pub members: Seq<SpecMember>,
    pub functions: Seq<SpecFunction>,
}

pub open spec fn no_children() -> SpecChildren {
    SpecChildren { fields: Seq::empty(), members: Seq::empty(), functions: Seq::empty() }
}

pub open spec fn spec_read_children(
    lib: LibraryModel,
    e: Seq<SpecItem>,
    pos: int,
    ns: int,
    kind: CompoundKind,
    acc: SpecChildren,
) -> Step<SpecChildren>
    decreases e.len() - pos,
{
    if !(0 <= pos < e.len()) {
        failed(lib, end_error(e))
    } else {
        match e[pos].event {
            SpecEvent::StartElement { name, attributes, .. } => match spec_child_action(kind, name) {
                ChildAction::Function => {
                    let r = spec_read_function(lib, e, pos + 1, ns, attributes);
                    match r.result {
                        Err(x) => failed(r.lib, x),
                        Ok((f, p)) => if advanced(e, pos, p) {
                            spec_read_children(
                                r.lib,
                                e,
                                p,
                                ns,
                                kind,
                                SpecChildren { functions: acc.functions.push(f), ..acc },
                            )
                        } else {
                            failed(r.lib, end_error(e))
                        },
                    }
                },
                ChildAction::Field => {
                    let r = spec_read_field(lib, e, pos + 1, ns, attributes);
                    match r.result {
                        Err(x) => failed(r.lib, x),
                        Ok((f, p)) => if advanced(e, pos, p) {
                            spec_read_children(
                                r.lib,
                                e,
                                p,
                                ns,
                                kind,
                                SpecChildren { fields: acc.fields.push(f), ..acc },
                            )
                        } else {
                            failed(r.lib, end_error(e))
                        },
                    }
                },
                ChildAction::Member => match spec_read_member(e, pos + 1, attributes) {
                    Err(x) => failed(lib, x),
                    Ok((m, p)) => if advanced(e, pos, p) {
                        spec_read_children(
                            lib,
                            e,
                            p,
                            ns,
                            kind,
                            SpecChildren { members: acc.members.push(m), ..acc },
                        )
                    } else {
                        failed(lib, end_error(e))
                    },
                },
                ChildAction::Skip => match skip_content(e, pos + 1) {
                    Err(x) => failed(lib, x),
                    Ok(p) => if advanced(e, pos, p) {
                        spec_read_children(lib, e, p, ns, kind, acc)
                    } else {
                        failed(lib, end_error(e))
                    },
                },
                ChildAction::Reject => failed(
                    lib,
                    error_at(e, pos + 1, SpecErrorKind::UnexpectedElement(name)),
                ),
            },
            SpecEvent::EndElement => done(lib, acc, pos + 1),
            _ => match interruption(e[pos]) {
                Some(x) => failed(lib, x),
                None => spec_read_children(lib, e, pos + 1, ns, kind, acc),
            },
        }
    }
}

/// The type that a compound type element defines.
pub open spec fn compound_type(kind: CompoundKind, name: Seq<char>, c: SpecChildren) -> SpecType {
    match kind {
        CompoundKind::Class => SpecType::Class { name, functions: c.functions },
        CompoundKind::Record => SpecType::Record { name, functions: c.functions },
        CompoundKind::Union => SpecType::Union { name, fields: c.fields, functions: c.functions },
        CompoundKind::Interface => SpecType::Interface { name, functions: c.functions },
        CompoundKind::Bitfield => SpecType::Bitfield {
            name,
            members: c.members,
            functions: c.functions,
        },
        CompoundKind::Enumeration => SpecType::Enumeration {
            name,
            members: c.members,
            functions: c.functions,
        },
    }
}

/// A compound type element: defines its type in namespace `ns` under its `name`,
/// except for records that describe a class's type structure (`is-gtype-struct`).
pub open spec fn spec_read_compound(
    lib: LibraryModel,
    e: Seq<SpecItem>,
    pos: int,
    ns: int,
    kind: CompoundKind,
    attrs: Seq<SpecAttribute>,
) -> Step<()> {
    match attribute_value(attrs, "name"@) {
        None => failed(lib, error_at(e, pos, SpecErrorKind::Missing(name_attribute(kind)))),
        Some(name) => {
            let gtype_name = match attribute_value(attrs, "type-name"@) {
                Some(t) => t,
                None => name,
            };
            let r = spec_read_children(lib, e, pos, ns, kind, no_children());
            match r.result {
                Err(x) => failed(r.lib, x),
                Ok((c, p)) => if kind == CompoundKind::Record && attribute_value(
                    attrs,
                    "is-gtype-struct"@,
                ) is Some {
                    done(r.lib, (), p)
                } else {
                    done(add_type(r.lib, ns, name, compound_type(kind, gtype_name, c)).0, (), p)
                },
            }
        },
    }
}

// ---------------------------------------------------------------------------
// Callbacks, global functions, constants, aliases
// ---------------------------------------------------------------------------

/// A `<callback>` element: defines a callback type under its `name`.
pub open spec fn spec_read_callback(
    lib: LibraryModel,
    e: Seq<SpecItem>,
    pos: int,
    ns: int,
    attrs: Seq<SpecAttribute>,
) -> Step<()> {
    match attribute_value(attrs, "name"@) {
        None => failed(lib, error_at(e, pos, SpecErrorKind::Missing(MissingAttribute::CallbackName))),
        Some(name) => {
            let r = spec_read_function(lib, e, pos, ns, attrs);
            match r.result {
                Err(x) => failed(r.lib, x),
                Ok((f, p)) => done(add_type(r.lib, ns, name, SpecType::Callback(f)).0, (), p),
            }
        },
    }
}

/// A `<function>` element directly in a namespace: appends it to the namespace's functions.
pub open spec fn spec_read_global_function(
    lib: LibraryModel,
    e: Seq<SpecItem>,
    pos: int,
    ns: int,
    attrs: Seq<SpecAttribute>,
) -> Step<()> {
    let r = spec_read_function(lib, e, pos, ns, attrs);
    match r.result {
        Err(x) => failed(r.lib, x),
        Ok((f, p)) => done(add_function(r.lib, ns, f), (), p),
    }
}

/// A `<constant>` element: appends it to the namespace's constants.
pub open spec fn spec_read_constant(
    lib: LibraryModel,
    e: Seq<SpecItem>,
    pos: int,
    ns: int,
    attrs: Seq<SpecAttribute>,
) -> Step<()> {
    match attribute_value(attrs, "name"@) {
        None => failed(lib, error_at(e, pos, SpecErrorKind::Missing(MissingAttribute::ConstantName))),
        Some(name) => match attribute_value(attrs, "value"@) {
            None => failed(
                lib,
                error_at(e, pos, SpecErrorKind::Missing(MissingAttribute::ConstantValue)),
            ),
            Some(value) => {
                let r = spec_single_type(lib, e, pos, ns, None);
                match r.result {
                    Err(x) => failed(r.lib, x),
                    Ok((typ, p)) => match typ {
                        Some(t) => done(
                            add_constant(r.lib, ns, SpecConstant { name, typ: t, value }),
                            (),
                            p,
                        ),
                        None => failed(r.lib, error_at(e, p, SpecErrorKind::MissingType)),
                    },
                }
            },
        },
    }
}

/// An `<alias>` element: defines an alias type under its `name`. Its absence is
/// reported as that of a constant's name.
pub open spec fn spec_read_alias(
    lib: LibraryModel,
    e: Seq<SpecItem>,
    pos: int,
    ns: int,
    attrs: Seq<SpecAttribute>,
) -> Step<()> {
    match attribute_value(attrs, "name"@) {
        None => failed(lib, error_at(e, pos, SpecErrorKind::Missing(MissingAttribute::ConstantName))),
        Some(name) => {
            let c_identifier = match attribute_value(attrs, "type"@) {
                Some(c) => c,
                None => name,
            };
            let r = spec_single_type(lib, e, pos, ns, None);
            match r.result {
                Err(x) => failed(r.lib, x),
                Ok((typ, p)) => match typ {
                    Some(t) => done(
                        add_type(r.lib, ns, name, SpecType::Alias(SpecAlias { name, c_identifier, typ: t })).0,
                        (),
                        p,
                    ),
                    None => failed(r.lib, error_at(e, p, SpecErrorKind::MissingType)),
                },
            }
        },
    }
}

// ---------------------------------------------------------------------------
// Namespaces, repositories, documents
// ---------------------------------------------------------------------------

/// What an element directly inside a `<namespace>` is read as.
#[derive(Clone, Copy, PartialEq, Eq, Structural, Debug)]
pub enum NamespaceItem {
    Compound(CompoundKind),
    Callback,
    Function,
    Constant,
    Alias,
    Unknown,
}

pub open spec fn spec_namespace_item(name: Seq<char>) -> NamespaceItem {
    if name == "class"@ {
        NamespaceItem::Compound(CompoundKind::Class)
    } else if name == "record"@ {
        NamespaceItem::Compound(CompoundKind::Record)
    } else if name == "union"@ {
        NamespaceItem::Compound(CompoundKind::Union)
    } else if name == "interface"@ {
        NamespaceItem::Compound(CompoundKind::Interface)
    } else if name == "callback"@ {
        NamespaceItem::Callback
    } else if name == "bitfield"@ {
        NamespaceItem::Compound(CompoundKind::Bitfield)
    } else if name == "enumeration"@ {
        NamespaceItem::Compound(CompoundKind::Enumeration)
    } else if name == "function"@ {
        NamespaceItem::Function
    } else if name == "constant"@ {
        NamespaceItem::Constant
    } else if name == "alias"@ {
        NamespaceItem::Alias
    } else {
        NamespaceItem::Unknown
    }
}

/// The outcome of reading at the level of namespaces and above: besides the library
/// and the result, the elements skipped as unknown so far, in document order.
pub struct Reading<T> {
    pub lib: LibraryModel,
    pub notices: Seq<SpecUnknown>,
    pub result: Result<(T, int), SpecParseError>,
}

/// A step of an element reader, seen at the namespace level: it skips nothing.
pub open spec fn lift<T>(s: Step<T>, seen: Seq<SpecUnknown>) -> Reading<T> {
    Reading { lib: s.lib, notices: seen, result: s.result }
}

/// An element directly inside a `<namespace>`, called `name`, read as `item` says;
/// unknown elements are recorded after `seen` and skipped.
pub open spec fn spec_read_namespace_item(
    lib: LibraryModel,
    e: Seq<SpecItem>,
    pos: int,
    ns: int,
    name: Seq<char>,
    item: NamespaceItem,
    attrs: Seq<SpecAttribute>,
    seen: Seq<SpecUnknown>,
) -> Reading<()> {
    match item {
        NamespaceItem::Compound(kind) => lift(spec_read_compound(lib, e, pos, ns, kind, attrs), seen),
        NamespaceItem::Callback => lift(spec_read_callback(lib, e, pos, ns, attrs), seen),
        NamespaceItem::Function => lift(spec_read_global_function(lib, e, pos, ns, attrs), seen),
        NamespaceItem::Constant => lift(spec_read_constant(lib, e, pos, ns, attrs), seen),
        NamespaceItem::Alias => lift(spec_read_alias(lib, e, pos, ns, attrs), seen),
        NamespaceItem::Unknown => {
            let notices = seen.push(
                SpecUnknown { name, name_attribute: attribute_value(attrs, "name"@) },
            );
            match skip_content(e, pos) {
                Err(x) => Reading { lib, notices, result: Err(x) },
                Ok(p) => Reading { lib, notices, result: Ok(((), p)) },
            }
        },
    }
}

/// The content of a `<namespace>` element, read into namespace `ns`.
pub open spec fn spec_namespace_content(
    lib: LibraryModel,
    e: Seq<SpecItem>,
    pos: int,
    ns: int,
    seen: Seq<SpecUnknown>,
) -> Reading<()>
    decreases e.len() - pos,
{
    if !(0 <= pos < e.len()) {
        Reading { lib, notices: seen, result: Err(end_error(e)) }
    } else {
        match e[pos].event {
            SpecEvent::StartElement { name, attributes, .. } => {
                let r = spec_read_namespace_item(
                    lib,
                    e,
                    pos + 1,
                    ns,
                    name,
                    spec_namespace_item(name),
                    attributes,
                    seen,
                );
                match r.result {
                    Err(x) => r,
                    Ok((_, p)) => if advanced(e, pos, p) {
                        spec_namespace_content(r.lib, e, p, ns, r.notices)
                    } else {
                        Reading { lib: r.lib, notices: r.notices, result: Err(end_error(e)) }
                    },
                }
            },
            SpecEvent::EndElement => Reading { lib, notices: seen, result: Ok(((), pos + 1)) },
            _ => match interruption(e[pos]) {
                Some(x) => Reading { lib, notices: seen, result: Err(x) },
                None => spec_namespace_content(lib, e, pos + 1, ns, seen),
            },
        }
    }
}

/// A `<namespace>` element: the namespace of its `name` is looked up or added, and
/// its content read into it.
pub open spec fn spec_read_namespace(
    lib: LibraryModel,
    e: Seq<SpecItem>,
    pos: int,
    attrs: Seq<SpecAttribute>,
    seen: Seq<SpecUnknown>,
) -> Reading<()> {
    match attribute_value(attrs, "name"@) {
        None => Reading {
            lib,
            notices: seen,
            result: Err(error_at(e, pos, SpecErrorKind::Missing(MissingAttribute::NamespaceName))),
        },
        Some(name) => {
            let (l, ns) = get_namespace(lib, name);
            spec_namespace_content(rename_namespace(l, ns, name), e, pos, ns, seen)
        },
    }
}

/// Where reading a repository stopped: at its end, or at an `<include>` of a
/// library that is not yet read, named by `file` (`name-version`); reading goes on
/// at `resume` once that library is read.
pub enum SpecRepositoryStop {
    End,
    Include { file: Seq<char>, resume: int },
}

/// The library that an `<include>` with these attributes asks for, if it is not read
/// yet: its file name `name-version`.
pub open spec fn wanted_include(lib: LibraryModel, attrs: Seq<SpecAttribute>) -> Option<Seq<char>> {
    match (attribute_value(attrs, "name"@), attribute_value(attrs, "version"@)) {
        (Some(l), Some(v)) => if find_namespace(lib, l) is None {
            Some(l + "-"@ + v)
        } else {
            None
        },
        _ => None,
    }
}

/// The content of a `<repository>` element.
pub open spec fn spec_repository_content(
    lib: LibraryModel,
    e: Seq<SpecItem>,
    pos: int,
    seen: Seq<SpecUnknown>,
) -> Reading<SpecRepositoryStop>
    decreases e.len() - pos,
{
    if !(0 <= pos < e.len()) {
        Reading { lib, notices: seen, result: Err(end_error(e)) }
    } else {
        match e[pos].event {
            SpecEvent::StartElement { name, attributes, .. } => if name == "include"@ {
                match wanted_include(lib, attributes) {
                    Some(file) => Reading {
                        lib,
                        notices: seen,
                        result: Ok((SpecRepositoryStop::Include { file, resume: pos + 1 }, pos + 1)),
                    },
                    None => match skip_content(e, pos + 1) {
                        Err(x) => Reading { lib, notices: seen, result: Err(x) },
                        Ok(p) => if advanced(e, pos, p) {
                            spec_repository_content(lib, e, p, seen)
                        } else {
                            Reading { lib, notices: seen, result: Err(end_error(e)) }
                        },
                    },
                }
            } else if name == "namespace"@ {
                let r = spec_read_namespace(lib, e, pos + 1, attributes, seen);
                match r.result {
                    Err(x) => Reading { lib: r.lib, notices: r.notices, result: Err(x) },
                    Ok((_, p)) => if advanced(e, pos, p) {
                        spec_repository_content(r.lib, e, p, r.notices)
                    } else {
                        Reading { lib: r.lib, notices: r.notices, result: Err(end_error(e)) }
                    },
                }
            } else {
                match skip_content(e, pos + 1) {
                    Err(x) => Reading { lib, notices: seen, result: Err(x) },
                    Ok(p) => if advanced(e, pos, p) {
                        spec_repository_content(lib, e, p, seen)
                    } else {
                        Reading { lib, notices: seen, result: Err(end_error(e)) }
                    },
                }
            },
            SpecEvent::EndElement => Reading {
                lib,
                notices: seen,
                result: Ok((SpecRepositoryStop::End, pos + 1)),
            },
            _ => match interruption(e[pos]) {
                Some(x) => Reading { lib, notices: seen, result: Err(x) },
                None => spec_repository_content(lib, e, pos + 1, seen),
            },
        }
    }
}

/// Whether an opening tag is that of a repository of the introspection format.
pub open spec fn is_repository_tag(name: Seq<char>, namespace: Option<Seq<char>>) -> bool {
    name == "repository"@ && namespace == Some("http://www.gtk.org/introspection/core/1.0"@)
}

/// Where reading a document stopped: at its end, or at an `<include>` (see
/// `SpecRepositoryStop`).
pub enum SpecDocumentStop {
    Finished,
    Include { file: Seq<char>, resume: int },
}

/// Reading a document from event `pos` on: every repository element found is read;
/// everything else is passed over event by event.
pub open spec fn spec_read_document(
    lib: LibraryModel,
    e: Seq<SpecItem>,
    pos: int,
    seen: Seq<SpecUnknown>,
) -> Reading<SpecDocumentStop>
    decreases e.len() - pos,
{
    if !(0 <= pos < e.len()) {
        Reading { lib, notices: seen, result: Ok((SpecDocumentStop::Finished, pos + 1)) }
    } else {
        match e[pos].event {
            SpecEvent::StartElement { name, namespace, .. } => if is_repository_tag(name, namespace) {
                let r = spec_repository_content(lib, e, pos + 1, seen);
                match r.result {
                    Err(x) => Reading { lib: r.lib, notices: r.notices, result: Err(x) },
                    Ok((SpecRepositoryStop::Include { file, resume }, p)) => Reading {
                        lib: r.lib,
                        notices: r.notices,
                        result: Ok((SpecDocumentStop::Include { file, resume }, p)),
                    },
                    Ok((SpecRepositoryStop::End, p)) => if advanced(e, pos, p) {
                        spec_read_document(r.lib, e, p, r.notices)
                    } else {
                        Reading { lib: r.lib, notices: r.notices, result: Err(end_error(e)) }
                    },
                }
            } else {
                spec_read_document(lib, e, pos + 1, seen)
            },
            SpecEvent::Error(m) => Reading {
                lib,
                notices: seen,
                result: Err(
                    SpecParseError { kind: SpecErrorKind::Xml(m), row: e[pos].row, column: e[pos].column },
                ),
            },
            SpecEvent::EndDocument => Reading {
                lib,
                notices: seen,
                result: Ok((SpecDocumentStop::Finished, pos + 1)),
            },
            _ => spec_read_document(lib, e, pos + 1, seen),
        }
    }
}

/// Going on with a document after the library of an `<include>` was read: the rest of
/// the include element is skipped, then the repository and the document are read on.
pub open spec fn spec_resume_document(
    lib: LibraryModel,
    e: Seq<SpecItem>,
    resume: int,
    seen: Seq<SpecUnknown>,
) -> Reading<SpecDocumentStop> {
    match skip_content(e, resume) {
        Err(x) => Reading { lib, notices: seen, result: Err(x) },
        Ok(p) => {
            let r = spec_repository_content(lib, e, p, seen);
            match r.result {
                Err(x) => Reading { lib: r.lib, notices: r.notices, result: Err(x) },
                Ok((SpecRepositoryStop::Include { file, resume }, q)) => Reading {
                    lib: r.lib,
                    notices: r.notices,
                    result: Ok((SpecDocumentStop::Include { file, resume }, q)),
                },
                Ok((SpecRepositoryStop::End, q)) => spec_read_document(r.lib, e, q, r.notices),
            }
        },
    }
}

} // verus!
