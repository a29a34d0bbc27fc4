//! Reading the elements of a repository document into a `Library`. Each reader
//! does exactly what its model in `grammar` states.

use vstd::prelude::*;
use crate::events::{
    attribute_value, attributes_view, get_attribute, items_view, Attribute, MissingAttribute,
    ParseError, ParseErrorKind, SpecItem, SpecParseError, XmlEventKind, XmlItem,
};
use crate::grammar::{
    end_error, error_at, interruption, no_children, skip_content, spec_child_action,
    spec_function_content, spec_is_doc_element, spec_is_function_element, spec_is_type_element,
    spec_member_content, spec_parameter_content, spec_read_alias, spec_read_callback,
    spec_read_children, spec_read_compound, spec_read_constant, spec_read_field,
    spec_read_function, spec_read_global_function, spec_read_member, spec_read_parameter,
    spec_read_parameters, spec_read_type, spec_single_type, spec_type_args, ChildAction,
    CompoundKind, SpecChildren, Step,
};
use crate::library::{
    defines, extends, keeps_lists, fields_view, functions_view, members_view, parameters_view, transfer_named,
    Alias, Bitfield, Class, Constant, Enumeration, Field, Function, Interface, Library,
    LibraryModel, Member, Parameter, Record, SpecMember, SpecParameter, SpecType, Transfer, Type,
    TypeId, Union, INTERNAL_NAMESPACE,
};
use crate::laws::{
    closes_element, law_add_type_defines, law_skip_content_matches_end, lemma_within_child,
    lemma_within_end, lemma_within_other, lemma_within_start, within_element,
};
use crate::text::str_equal;

verus! {

/// An executable result agrees with the model's: same value and next index, or same error.
pub open spec fn agrees<T: View>(r: Result<(T, usize), ParseError>, s: Result<(T::V, int), SpecParseError>) -> bool {
    match r {
        Ok((v, p)) => s == Ok::<(T::V, int), SpecParseError>((v@, p as int)),
        Err(x) => s == Err::<(T::V, int), SpecParseError>(x@),
    }
}

/// An executable result that carries only the next index agrees with the model's.
pub open spec fn agrees_unit(r: Result<usize, ParseError>, s: Result<((), int), SpecParseError>) -> bool {
    match r {
        Ok(p) => s == Ok::<((), int), SpecParseError>(((), p as int)),
        Err(x) => s == Err::<((), int), SpecParseError>(x@),
    }
}

/// The library after reading and the result are those of the model step `s`.
pub open spec fn follows<T: View>(lib: LibraryModel, r: Result<(T, usize), ParseError>, s: Step<T::V>) -> bool {
    lib == s.lib && agrees(r, s.result)
}

pub open spec fn follows_unit(lib: LibraryModel, r: Result<usize, ParseError>, s: Step<()>) -> bool {
    lib == s.lib && agrees_unit(r, s.result)
}

/// A successful read of an element whose opening tag came just before `pos` stops
/// right after that element's closing tag.
pub open spec fn reads_element<T>(r: Result<(T, usize), ParseError>, pos: usize, e: Seq<SpecItem>) -> bool {
    r matches Ok((_, p)) ==> pos < p <= e.len() && closes_element(e, pos as int, p as int)
}

pub open spec fn reads_element_unit(r: Result<usize, ParseError>, pos: usize, e: Seq<SpecItem>) -> bool {
    r matches Ok(p) ==> pos < p <= e.len() && closes_element(e, pos as int, p as int)
}

pub(crate) fn make_end_error(events: &[XmlItem]) -> (r: ParseError)
    ensures
        r@ == end_error(items_view(events@)),
{
    let n = events.len();
    if n > 0 {
        ParseError { kind: ParseErrorKind::UnexpectedEnd, row: events[n - 1].row, column: events[n - 1].column }
    } else {
        ParseError { kind: ParseErrorKind::UnexpectedEnd, row: 0, column: 0 }
    }
}

/// An error found after `consumed` events, at the position of the last of them.
pub(crate) fn make_error(events: &[XmlItem], consumed: usize, kind: ParseErrorKind) -> (r: ParseError)
    ensures
        r@ == error_at(items_view(events@), consumed as int, kind@),
{
    let n = events.len();
    if consumed >= 1 && consumed - 1 < n {
        ParseError { kind, row: events[consumed - 1].row, column: events[consumed - 1].column }
    } else if n > 0 {
        ParseError { kind, row: events[n - 1].row, column: events[n - 1].column }
    } else {
        ParseError { kind, row: 0, column: 0 }
    }
}

pub(crate) fn check_interruption(item: &XmlItem) -> (r: Option<ParseError>)
    ensures
        match r {
            Some(x) => interruption(item@) == Some(x@),
            None => interruption(item@) is None,
        },
{
    match &item.event {
        XmlEventKind::Error(m) => Some(
            ParseError { kind: ParseErrorKind::Xml(m.clone()), row: item.row, column: item.column },
        ),
        XmlEventKind::EndDocument => Some(
            ParseError { kind: ParseErrorKind::UnexpectedEnd, row: item.row, column: item.column },
        ),
        _ => None,
    }
}

fn is_type_element(n: &str) -> (r: bool)
    ensures
        r == spec_is_type_element(n@),
{
    str_equal(n, "type") || str_equal(n, "array")
}

fn is_doc_element(n: &str) -> (r: bool)
    ensures
        r == spec_is_doc_element(n@),
{
    str_equal(n, "doc") || str_equal(n, "doc-deprecated")
}

fn is_function_element(n: &str) -> (r: bool)
    ensures
        r == spec_is_function_element(n@),
{
    str_equal(n, "constructor") || str_equal(n, "function") || str_equal(n, "method")
}

/// Skips the rest of an element whose opening tag came just before `pos`, nested
/// elements included, and returns the index after its closing tag.
pub fn ignore_element(events: &[XmlItem], pos: usize) -> (r: Result<usize, ParseError>)
    ensures
        match r {
            Ok(p) => skip_content(items_view(events@), pos as int) == Ok::<int, SpecParseError>(p as int),
            Err(x) => skip_content(items_view(events@), pos as int) == Err::<int, SpecParseError>(x@),
        },
        r matches Ok(p) ==> pos < p <= events@.len() && closes_element(items_view(events@), pos as int, p as int),
    decreases events@.len() - pos,
{
    let ghost e = items_view(events@);
    proof {
        law_skip_content_matches_end(e, pos as int);
    }
    let n = events.len();
    let mut p = pos;
    while p < n
        invariant
            n == events@.len(),
            e == items_view(events@),
            pos <= p,
            skip_content(e, pos as int) matches Ok(q) ==> closes_element(e, pos as int, q),
            skip_content(e, p as int) == skip_content(e, pos as int),
        decreases n - p,
    {
        match &events[p].event {
            XmlEventKind::StartElement { .. } => {
                match ignore_element(events, p + 1) {
                    Err(x) => {
                        return Err(x);
                    },
                    Ok(q) => {
                        p = q;
                    },
                }
            },
            XmlEventKind::EndElement => {
                return Ok(p + 1);
            },
            _ => {
                if let Some(x) = check_interruption(&events[p]) {
                    return Err(x);
                }
                p = p + 1;
            },
        }
    }
    Err(make_end_error(events))
}

impl Library {
    /// Reads a `<type>` or `<array>` element (named `element`, with attributes `attrs`)
    /// whose opening tag came just before `pos`, referring from namespace `ns_id`.
    pub fn read_type(
        &mut self,
        events: &[XmlItem],
        pos: usize,
        ns_id: usize,
        element: &str,
        attrs: &[Attribute],
    ) -> (r: Result<(TypeId, usize), ParseError>)
        requires
            ns_id < old(self)@.len(),
        ensures
            follows(
                final(self)@,
                r,
                spec_read_type(
                    old(self)@,
                    items_view(events@),
                    pos as int,
                    ns_id as int,
                    element@,
                    attributes_view(attrs@),
                ),
            ),
            extends(old(self)@, final(self)@),
            keeps_lists(old(self)@, final(self)@),
            reads_element(r, pos, items_view(events@)),
        decreases events@.len() - pos,
    {
        let ghost e = items_view(events@);
        let ghost lib0 = self@;
        let name: &str = if str_equal(element, "array") {
            "array"
        } else {
            match get_attribute(attrs, "name") {
                Some(n) => n,
                None => {
                    return Err(
                        make_error(events, pos, ParseErrorKind::Missing(MissingAttribute::TypeName)),
                    );
                },
            }
        };
        let ghost goal = spec_type_args(lib0, e, pos as int, ns_id as int, Seq::empty());
        let mut args: Vec<TypeId> = Vec::new();
        let n = events.len();
        let mut p = pos;
        proof {
            lemma_within_start(e, pos as int);
        }
        while p < n
            invariant
                n == events@.len(),
                e == items_view(events@),
                pos <= p,
                within_element(e, pos as int, p as int),
                lib0 == old(self)@,
                ns_id < self@.len(),
                extends(lib0, self@),
                keeps_lists(lib0, self@),
                (if element@ == "array"@ {
                    Some("array"@)
                } else {
                    attribute_value(attributes_view(attrs@), "name"@)
                }) == Some(name@),
                goal == spec_type_args(lib0, e, pos as int, ns_id as int, Seq::empty()),
                spec_type_args(self@, e, p as int, ns_id as int, args@) == goal,
            decreases n - p,
        {
            assert(e[p as int] == events@[p as int]@);
            match &events[p].event {
                XmlEventKind::StartElement { name: child, attributes, .. } => {
                    if is_type_element(child.as_str()) {
                        match self.read_type(events, p + 1, ns_id, child.as_str(), attributes.as_slice()) {
                            Err(x) => {
                                return Err(x);
                            },
                            Ok((t, q)) => {
                                proof {
                                    lemma_within_child(e, pos as int, p as int, q as int);
                                }
                                args.push(t);
                                p = q;
                            },
                        }
                    } else {
                        let err = make_error(events, p + 1, ParseErrorKind::UnexpectedElement(child.clone()));
                        return Err(err);
                    }
                },
                XmlEventKind::EndElement => {
                    proof {
                        lemma_within_end(e, pos as int, p as int);
                    }
                    let next = p + 1;
                    if args.len() > 0 {
                        match Type::container(self, name, args) {
                            Some(t) => {
                                return Ok((t, next));
                            },
                            None => {
                                return Err(make_error(events, pos, ParseErrorKind::UnknownContainer));
                            },
                        }
                    } else {
                        let t = self.get_type(ns_id, name);
                        return Ok((t, next));
                    }
                },
                _ => {
                    if let Some(x) = check_interruption(&events[p]) {
                        return Err(x);
                    }
                    proof {
                        lemma_within_other(e, pos as int, p as int);
                    }
                    p = p + 1;
                },
            }
        }
        Err(make_end_error(events))
    }
}

pub open spec fn parameter_option_view(p: Option<Parameter>) -> Option<SpecParameter> {
    match p {
        Some(x) => Some(x@),
        None => None,
    }
}

impl Library {
    /// Reads a `<parameter>`, `<instance-parameter>` or `<return-value>` element whose
    /// opening tag, with attributes `attrs`, came just before `pos`.
    pub fn read_parameter(&mut self, events: &[XmlItem], pos: usize, ns_id: usize, attrs: &[Attribute]) -> (r:
        Result<(Parameter, usize), ParseError>)
        requires
            ns_id < old(self)@.len(),
        ensures
            follows(
                final(self)@,
                r,
                spec_read_parameter(old(self)@, items_view(events@), pos as int, ns_id as int, attributes_view(attrs@)),
            ),
            extends(old(self)@, final(self)@),
            keeps_lists(old(self)@, final(self)@),
            reads_element(r, pos, items_view(events@)),
    {
        let ghost e = items_view(events@);
        let ghost av = attributes_view(attrs@);
        let ghost lib0 = self@;
        let name: &str = match get_attribute(attrs, "name") {
            Some(n) => n,
            None => "",
        };
        let mode: &str = match get_attribute(attrs, "transfer-ownership") {
            Some(m) => m,
            None => "none",
        };
        let transfer = match Transfer::by_name(mode) {
            Some(t) => t,
            None => {
                return Err(make_error(events, pos, ParseErrorKind::UnknownTransfer));
            },
        };
        let ghost goal = spec_parameter_content(lib0, e, pos as int, ns_id as int, None, false);
        let mut typ: Option<TypeId> = None;
        let mut varargs = false;
        let n = events.len();
        let mut p = pos;
        proof {
            lemma_within_start(e, pos as int);
        }
        while p < n
            invariant
                n == events@.len(),
                e == items_view(events@),
                av == attributes_view(attrs@),
                pos <= p,
                within_element(e, pos as int, p as int),
                lib0 == old(self)@,
                ns_id < self@.len(),
                extends(lib0, self@),
                keeps_lists(lib0, self@),
                (match attribute_value(av, "name"@) {
                    Some(n) => n,
                    None => ""@,
                }) == name@,
                transfer_named(
                    match attribute_value(av, "transfer-ownership"@) {
                        Some(m) => m,
                        None => "none"@,
                    },
                ) == Some(transfer),
                goal == spec_parameter_content(lib0, e, pos as int, ns_id as int, None, false),
                spec_parameter_content(self@, e, p as int, ns_id as int, typ, varargs) == goal,
            decreases n - p,
        {
            assert(e[p as int] == events@[p as int]@);
            match &events[p].event {
                XmlEventKind::StartElement { name: child, attributes, .. } => {
                    if is_type_element(child.as_str()) {
                        if typ.is_some() {
                            return Err(make_error(events, p + 1, ParseErrorKind::TooManyTypes));
                        }
                        match self.read_type(events, p + 1, ns_id, child.as_str(), attributes.as_slice()) {
                            Err(x) => {
                                return Err(x);
                            },
                            Ok((t, q)) => {
                                proof {
                                    lemma_within_child(e, pos as int, p as int, q as int);
                                }
                                typ = Some(t);
                                p = q;
                            },
                        }
                    } else if str_equal(child.as_str(), "varargs") || str_equal(child.as_str(), "doc") {
                        let is_varargs = str_equal(child.as_str(), "varargs");
                        match ignore_element(events, p + 1) {
                            Err(x) => {
                                return Err(x);
                            },
                            Ok(q) => {
                                proof {
                                    lemma_within_child(e, pos as int, p as int, q as int);
                                }
                                varargs = varargs || is_varargs;
                                p = q;
                            },
                        }
                    } else {
                        return Err(
                            make_error(events, p + 1, ParseErrorKind::UnexpectedElement(child.clone())),
                        );
                    }
                },
                XmlEventKind::EndElement => {
                    proof {
                        lemma_within_end(e, pos as int, p as int);
                    }
                    let next = p + 1;
                    match typ {
                        Some(t) => {
                            return Ok((Parameter { name: String::from_str(name), typ: t, transfer }, next));
                        },
                        None => {
                            if varargs {
                                let t = self.get_type(INTERNAL_NAMESPACE, "varargs");
                                return Ok(
                                    (
                                        Parameter {
                                            name: String::from_str(""),
                                            typ: t,
                                            transfer: Transfer::Nothing,
                                        },
                                        next,
                                    ),
                                );
                            } else {
                                return Err(make_error(events, next, ParseErrorKind::MissingType));
                            }
                        },
                    }
                },
                _ => {
                    if let Some(x) = check_interruption(&events[p]) {
                        return Err(x);
                    }
                    proof {
                        lemma_within_other(e, pos as int, p as int);
                    }
                    p = p + 1;
                },
            }
        }
        Err(make_end_error(events))
    }

    /// Reads a `<parameters>` element whose opening tag came just before `pos`.
    pub fn read_parameters(&mut self, events: &[XmlItem], pos: usize, ns_id: usize) -> (r: Result<
        (Vec<Parameter>, usize),
        ParseError,
    >)
        requires
            ns_id < old(self)@.len(),
        ensures
            final(self)@ == spec_read_parameters(old(self)@, items_view(events@), pos as int, ns_id as int, Seq::empty()).lib,
            match r {
                Ok((ps, p)) => spec_read_parameters(old(self)@, items_view(events@), pos as int, ns_id as int, Seq::empty()).result
                    == Ok::<(Seq<SpecParameter>, int), SpecParseError>((parameters_view(ps@), p as int)),
                Err(x) => spec_read_parameters(old(self)@, items_view(events@), pos as int, ns_id as int, Seq::empty()).result
                    == Err::<(Seq<SpecParameter>, int), SpecParseError>(x@),
            },
            extends(old(self)@, final(self)@),
            keeps_lists(old(self)@, final(self)@),
            reads_element(r, pos, items_view(events@)),
    {
        let ghost e = items_view(events@);
        let ghost lib0 = self@;
        let ghost goal = spec_read_parameters(lib0, e, pos as int, ns_id as int, Seq::empty());
        let mut params: Vec<Parameter> = Vec::new();
        assert(parameters_view(params@) =~= Seq::empty());
        let n = events.len();
        let mut p = pos;
        proof {
            lemma_within_start(e, pos as int);
        }
        while p < n
            invariant
                n == events@.len(),
                e == items_view(events@),
                pos <= p,
                within_element(e, pos as int, p as int),
                lib0 == old(self)@,
                ns_id < self@.len(),
                extends(lib0, self@),
                keeps_lists(lib0, self@),
                goal == spec_read_parameters(lib0, e, pos as int, ns_id as int, Seq::empty()),
                spec_read_parameters(self@, e, p as int, ns_id as int, parameters_view(params@)) == goal,
            decreases n - p,
        {
            assert(e[p as int] == events@[p as int]@);
            match &events[p].event {
                XmlEventKind::StartElement { name: child, attributes, .. } => {
                    if str_equal(child.as_str(), "parameter") || str_equal(child.as_str(), "instance-parameter") {
                        match self.read_parameter(events, p + 1, ns_id, attributes.as_slice()) {
                            Err(x) => {
                                return Err(x);
                            },
                            Ok((prm, q)) => {
                                proof {
                                    lemma_within_child(e, pos as int, p as int, q as int);
                                }
                                let ghost before = params@;
                                params.push(prm);
                                assert(parameters_view(params@) =~= parameters_view(before).push(prm@));
                                p = q;
                            },
                        }
                    } else {
                        return Err(
                            make_error(events, p + 1, ParseErrorKind::UnexpectedElement(child.clone())),
                        );
                    }
                },
                XmlEventKind::EndElement => {
                    proof {
                        lemma_within_end(e, pos as int, p as int);
                    }
                    return Ok((params, p + 1));
                },
                _ => {
                    if let Some(x) = check_interruption(&events[p]) {
                        return Err(x);
                    }
                    proof {
                        lemma_within_other(e, pos as int, p as int);
                    }
                    p = p + 1;
                },
            }
        }
        Err(make_end_error(events))
    }

    /// Reads a function element (`<function>`, `<method>`, `<constructor>` or
    /// `<callback>`) whose opening tag, with attributes `attrs`, came just before `pos`.
    pub fn read_function(&mut self, events: &[XmlItem], pos: usize, ns_id: usize, attrs: &[Attribute]) -> (r:
        Result<(Function, usize), ParseError>)
        requires
            ns_id < old(self)@.len(),
        ensures
            follows(
                final(self)@,
                r,
                spec_read_function(old(self)@, items_view(events@), pos as int, ns_id as int, attributes_view(attrs@)),
            ),
            extends(old(self)@, final(self)@),
            keeps_lists(old(self)@, final(self)@),
            reads_element(r, pos, items_view(events@)),
    {
        let ghost e = items_view(events@);
        let ghost av = attributes_view(attrs@);
        let ghost lib0 = self@;
        let name: &str = match get_attribute(attrs, "name") {
            Some(n) => n,
            None => {
                return Err(make_error(events, pos, ParseErrorKind::Missing(MissingAttribute::FunctionName)));
            },
        };
        let c_identifier: &str = match get_attribute(attrs, "identifier") {
            Some(c) => c,
            None => name,
        };
        let ghost goal = spec_function_content(lib0, e, pos as int, ns_id as int, Seq::empty(), None);
        let mut params: Vec<Parameter> = Vec::new();
        let mut ret: Option<Parameter> = None;
        assert(parameters_view(params@) =~= Seq::empty());
        let n = events.len();
        let mut p = pos;
        proof {
            lemma_within_start(e, pos as int);
        }
        while p < n
            invariant
                n == events@.len(),
                e == items_view(events@),
                av == attributes_view(attrs@),
                pos <= p,
                within_element(e, pos as int, p as int),
                lib0 == old(self)@,
                ns_id < self@.len(),
                extends(lib0, self@),
                keeps_lists(lib0, self@),
                attribute_value(av, "name"@) == Some(name@),
                (match attribute_value(av, "identifier"@) {
                    Some(c) => c,
                    None => name@,
                }) == c_identifier@,
                goal == spec_function_content(lib0, e, pos as int, ns_id as int, Seq::empty(), None),
                spec_function_content(self@, e, p as int, ns_id as int, parameters_view(params@), parameter_option_view(ret))
                    == goal,
            decreases n - p,
        {
            assert(e[p as int] == events@[p as int]@);
            match &events[p].event {
                XmlEventKind::StartElement { name: child, attributes, .. } => {
                    if str_equal(child.as_str(), "parameters") {
                        match self.read_parameters(events, p + 1, ns_id) {
                            Err(x) => {
                                return Err(x);
                            },
                            Ok((ps, q)) => {
                                proof {
                                    lemma_within_child(e, pos as int, p as int, q as int);
                                }
                                let ghost before = params@;
                                let mut ps = ps;
                                let ghost added = ps@;
                                params.append(&mut ps);
                                assert(parameters_view(params@) =~= parameters_view(before) + parameters_view(added));
                                p = q;
                            },
                        }
                    } else if str_equal(child.as_str(), "return-value") {
                        if ret.is_some() {
                            return Err(make_error(events, p + 1, ParseErrorKind::TooManyReturnValues));
                        }
                        match self.read_parameter(events, p + 1, ns_id, attributes.as_slice()) {
                            Err(x) => {
                                return Err(x);
                            },
                            Ok((rv, q)) => {
                                proof {
                                    lemma_within_child(e, pos as int, p as int, q as int);
                                }
                                ret = Some(rv);
                                p = q;
                            },
                        }
                    } else if is_doc_element(child.as_str()) {
                        match ignore_element(events, p + 1) {
                            Err(x) => {
                                return Err(x);
                            },
                            Ok(q) => {
                                proof {
                                    lemma_within_child(e, pos as int, p as int, q as int);
                                }
                                p = q;
                            },
                        }
                    } else {
                        return Err(
                            make_error(events, p + 1, ParseErrorKind::UnexpectedElement(child.clone())),
                        );
                    }
                },
                XmlEventKind::EndElement => {
                    proof {
                        lemma_within_end(e, pos as int, p as int);
                    }
                    let next = p + 1;
                    match ret {
                        Some(rv) => {
                            let f = Function {
                                name: String::from_str(name),
                                c_identifier: String::from_str(c_identifier),
                                parameters: params,
                                ret: rv,
                            };
                            return Ok((f, next));
                        },
                        None => {
                            return Err(make_error(events, next, ParseErrorKind::MissingReturnValue));
                        },
                    }
                },
                _ => {
                    if let Some(x) = check_interruption(&events[p]) {
                        return Err(x);
                    }
                    proof {
                        lemma_within_other(e, pos as int, p as int);
                    }
                    p = p + 1;
                },
            }
        }
        Err(make_end_error(events))
    }
}

/// Reads the content of a `<member>` element, which may hold documentation only.
fn read_member_content(events: &[XmlItem], pos: usize) -> (r: Result<usize, ParseError>)
    ensures
        match r {
            Ok(p) => spec_member_content(items_view(events@), pos as int) == Ok::<int, SpecParseError>(p as int),
            Err(x) => spec_member_content(items_view(events@), pos as int) == Err::<int, SpecParseError>(x@),
        },
        r matches Ok(p) ==> pos < p <= events@.len() && closes_element(items_view(events@), pos as int, p as int),
{
    let ghost e = items_view(events@);
    let n = events.len();
    let mut p = pos;
    proof {
        lemma_within_start(e, pos as int);
    }
    while p < n
        invariant
            n == events@.len(),
            e == items_view(events@),
            pos <= p,
            within_element(e, pos as int, p as int),
            spec_member_content(e, p as int) == spec_member_content(e, pos as int),
        decreases n - p,
    {
        assert(e[p as int] == events@[p as int]@);
        match &events[p].event {
            XmlEventKind::StartElement { name: child, .. } => {
                if is_doc_element(child.as_str()) {
                    match ignore_element(events, p + 1) {
                        Err(x) => {
                            return Err(x);
                        },
                        Ok(q) => {
                            proof {
                                lemma_within_child(e, pos as int, p as int, q as int);
                            }
                            p = q;
                        },
                    }
                } else {
                    return Err(make_error(events, p + 1, ParseErrorKind::UnexpectedElement(child.clone())));
                }
            },
            XmlEventKind::EndElement => {
                proof {
                    lemma_within_end(e, pos as int, p as int);
                }
                return Ok(p + 1);
            },
            _ => {
                if let Some(x) = check_interruption(&events[p]) {
                    return Err(x);
                }
                proof {
                    lemma_within_other(e, pos as int, p as int);
                }
                p = p + 1;
            },
        }
    }
    Err(make_end_error(events))
}

impl Library {
    /// Reads a `<member>` element whose opening tag, with attributes `attrs`, came just
    /// before `pos`.
    pub fn read_member(&self, events: &[XmlItem], pos: usize, attrs: &[Attribute]) -> (r: Result<
        (Member, usize),
        ParseError,
    >)
        ensures
            match r {
                Ok((m, p)) => spec_read_member(items_view(events@), pos as int, attributes_view(attrs@))
                    == Ok::<(SpecMember, int), SpecParseError>((m@, p as int)),
                Err(x) => spec_read_member(items_view(events@), pos as int, attributes_view(attrs@))
                    == Err::<(SpecMember, int), SpecParseError>(x@),
            },
            reads_element(r, pos, items_view(events@)),
    {
        let name: &str = match get_attribute(attrs, "name") {
            Some(n) => n,
            None => {
                return Err(make_error(events, pos, ParseErrorKind::Missing(MissingAttribute::MemberName)));
            },
        };
        let value: &str = match get_attribute(attrs, "value") {
            Some(v) => v,
            None => {
                return Err(make_error(events, pos, ParseErrorKind::Missing(MissingAttribute::MemberValue)));
            },
        };
        let c_identifier: &str = match get_attribute(attrs, "identifier") {
            Some(c) => c,
            None => name,
        };
        match read_member_content(events, pos) {
            Err(x) => Err(x),
            Ok(p) => Ok(
                (
                    Member {
                        name: String::from_str(name),
                        value: String::from_str(value),
                        c_identifier: String::from_str(c_identifier),
                    },
                    p,
                ),
            ),
        }
    }

    /// Reads the content of an element that holds at most one `<type>` or `<array>`
    /// element besides documentation, and returns that type if present.
    fn read_single_type(&mut self, events: &[XmlItem], pos: usize, ns_id: usize) -> (r: Result<
        (Option<TypeId>, usize),
        ParseError,
    >)
        requires
            ns_id < old(self)@.len(),
        ensures
            final(self)@ == spec_single_type(old(self)@, items_view(events@), pos as int, ns_id as int, None).lib,
            match r {
                Ok((t, p)) => spec_single_type(old(self)@, items_view(events@), pos as int, ns_id as int, None).result
                    == Ok::<(Option<TypeId>, int), SpecParseError>((t, p as int)),
                Err(x) => spec_single_type(old(self)@, items_view(events@), pos as int, ns_id as int, None).result
                    == Err::<(Option<TypeId>, int), SpecParseError>(x@),
            },
            extends(old(self)@, final(self)@),
            keeps_lists(old(self)@, final(self)@),
            reads_element(r, pos, items_view(events@)),
    {
        let ghost e = items_view(events@);
        let ghost lib0 = self@;
        let ghost goal = spec_single_type(lib0, e, pos as int, ns_id as int, None);
        let mut typ: Option<TypeId> = None;
        let n = events.len();
        let mut p = pos;
        proof {
            lemma_within_start(e, pos as int);
        }
        while p < n
            invariant
                n == events@.len(),
                e == items_view(events@),
                pos <= p,
                within_element(e, pos as int, p as int),
                lib0 == old(self)@,
                ns_id < self@.len(),
                extends(lib0, self@),
                keeps_lists(lib0, self@),
                goal == spec_single_type(lib0, e, pos as int, ns_id as int, None),
                spec_single_type(self@, e, p as int, ns_id as int, typ) == goal,
            decreases n - p,
        {
            assert(e[p as int] == events@[p as int]@);
            match &events[p].event {
                XmlEventKind::StartElement { name: child, attributes, .. } => {
                    if is_type_element(child.as_str()) {
                        if typ.is_some() {
                            return Err(make_error(events, p + 1, ParseErrorKind::TooManyTypes));
                        }
                        match self.read_type(events, p + 1, ns_id, child.as_str(), attributes.as_slice()) {
                            Err(x) => {
                                return Err(x);
                            },
                            Ok((t, q)) => {
                                proof {
                                    lemma_within_child(e, pos as int, p as int, q as int);
                                }
                                typ = Some(t);
                                p = q;
                            },
                        }
                    } else if is_doc_element(child.as_str()) {
                        match ignore_element(events, p + 1) {
                            Err(x) => {
                                return Err(x);
                            },
                            Ok(q) => {
                                proof {
                                    lemma_within_child(e, pos as int, p as int, q as int);
                                }
                                p = q;
                            },
                        }
                    } else {
                        return Err(
                            make_error(events, p + 1, ParseErrorKind::UnexpectedElement(child.clone())),
                        );
                    }
                },
                XmlEventKind::EndElement => {
                    proof {
                        lemma_within_end(e, pos as int, p as int);
                    }
                    return Ok((typ, p + 1));
                },
                _ => {
                    if let Some(x) = check_interruption(&events[p]) {
                        return Err(x);
                    }
                    proof {
                        lemma_within_other(e, pos as int, p as int);
                    }
                    p = p + 1;
                },
            }
        }
        Err(make_end_error(events))
    }

    /// Reads a `<field>` element whose opening tag, with attributes `attrs`, came just
    /// before `pos`.
    pub fn read_field(&mut self, events: &[XmlItem], pos: usize, ns_id: usize, attrs: &[Attribute]) -> (r:
        Result<(Field, usize), ParseError>)
        requires
            ns_id < old(self)@.len(),
        ensures
            follows(
                final(self)@,
                r,
                spec_read_field(old(self)@, items_view(events@), pos as int, ns_id as int, attributes_view(attrs@)),
            ),
            extends(old(self)@, final(self)@),
            keeps_lists(old(self)@, final(self)@),
            reads_element(r, pos, items_view(events@)),
    {
        let name: &str = match get_attribute(attrs, "name") {
            Some(n) => n,
            None => {
                return Err(make_error(events, pos, ParseErrorKind::Missing(MissingAttribute::FieldName)));
            },
        };
        match self.read_single_type(events, pos, ns_id) {
            Err(x) => Err(x),
            Ok((Some(t), p)) => Ok((Field { name: String::from_str(name), typ: t }, p)),
            Ok((None, p)) => Err(make_error(events, p, ParseErrorKind::MissingType)),
        }
    }

    /// Reads a `<constant>` element whose opening tag, with attributes `attrs`, came
    /// just before `pos`, and appends the constant to namespace `ns_id`.
    pub fn read_constant(&mut self, events: &[XmlItem], pos: usize, ns_id: usize, attrs: &[Attribute]) -> (r:
        Result<usize, ParseError>)
        requires
            ns_id < old(self)@.len(),
        ensures
            follows_unit(
                final(self)@,
                r,
                spec_read_constant(old(self)@, items_view(events@), pos as int, ns_id as int, attributes_view(attrs@)),
            ),
            extends(old(self)@, final(self)@),
            reads_element_unit(r, pos, items_view(events@)),
            r is Ok ==> (attribute_value(attributes_view(attrs@), "name"@) matches Some(n) && attribute_value(
                attributes_view(attrs@),
                "value"@,
            ) matches Some(v) && final(self)@[ns_id as int].constants.len() == old(self)@[ns_id as int].constants.len() + 1
                && final(self)@[ns_id as int].constants.last().name == n
                && final(self)@[ns_id as int].constants.last().value == v
                && final(self)@[ns_id as int].constants.drop_last() == old(self)@[ns_id as int].constants),
            r is Err ==> final(self)@[ns_id as int].constants == old(self)@[ns_id as int].constants,
            final(self)@[ns_id as int].functions == old(self)@[ns_id as int].functions,
    {
        let name: &str = match get_attribute(attrs, "name") {
            Some(n) => n,
            None => {
                return Err(make_error(events, pos, ParseErrorKind::Missing(MissingAttribute::ConstantName)));
            },
        };
        let value: &str = match get_attribute(attrs, "value") {
            Some(v) => v,
            None => {
                return Err(make_error(events, pos, ParseErrorKind::Missing(MissingAttribute::ConstantValue)));
            },
        };
        match self.read_single_type(events, pos, ns_id) {
            Err(x) => Err(x),
            Ok((Some(t), p)) => {
                self.add_constant(
                    ns_id,
                    Constant { name: String::from_str(name), typ: t, value: String::from_str(value) },
                );
                Ok(p)
            },
            Ok((None, p)) => Err(make_error(events, p, ParseErrorKind::MissingType)),
        }
    }

    /// Reads an `<alias>` element whose opening tag, with attributes `attrs`, came just
    /// before `pos`, and defines the alias type in namespace `ns_id`.
    pub fn read_alias(&mut self, events: &[XmlItem], pos: usize, ns_id: usize, attrs: &[Attribute]) -> (r:
        Result<usize, ParseError>)
        requires
            ns_id < old(self)@.len(),
        ensures
            follows_unit(
                final(self)@,
                r,
                spec_read_alias(old(self)@, items_view(events@), pos as int, ns_id as int, attributes_view(attrs@)),
            ),
            extends(old(self)@, final(self)@),
            keeps_lists(old(self)@, final(self)@),
            reads_element_unit(r, pos, items_view(events@)),
            r is Ok ==> (attribute_value(attributes_view(attrs@), "name"@) matches Some(n) && defines(final(self)@, ns_id as int, n)),
    {
        let name: &str = match get_attribute(attrs, "name") {
            Some(n) => n,
            None => {
                return Err(make_error(events, pos, ParseErrorKind::Missing(MissingAttribute::ConstantName)));
            },
        };
        let c_identifier: &str = match get_attribute(attrs, "type") {
            Some(c) => c,
            None => name,
        };
        match self.read_single_type(events, pos, ns_id) {
            Err(x) => Err(x),
            Ok((Some(t), p)) => {
                let alias = Alias {
                    name: String::from_str(name),
                    c_identifier: String::from_str(c_identifier),
                    typ: t,
                };
                let ghost before = self@;
                let ghost av = alias@;
                self.add_type(ns_id, name, Type::Alias(alias));
                proof {
                    law_add_type_defines(before, ns_id as int, name@, SpecType::Alias(av));
                }
                Ok(p)
            },
            Ok((None, p)) => Err(make_error(events, p, ParseErrorKind::MissingType)),
        }
    }

    /// Reads a `<callback>` element whose opening tag, with attributes `attrs`, came
    /// just before `pos`, and defines the callback type in namespace `ns_id`.
    pub fn read_callback(&mut self, events: &[XmlItem], pos: usize, ns_id: usize, attrs: &[Attribute]) -> (r:
        Result<usize, ParseError>)
        requires
            ns_id < old(self)@.len(),
        ensures
            follows_unit(
                final(self)@,
                r,
                spec_read_callback(old(self)@, items_view(events@), pos as int, ns_id as int, attributes_view(attrs@)),
            ),
            extends(old(self)@, final(self)@),
            keeps_lists(old(self)@, final(self)@),
            reads_element_unit(r, pos, items_view(events@)),
            r is Ok ==> (attribute_value(attributes_view(attrs@), "name"@) matches Some(n) && defines(final(self)@, ns_id as int, n)),
    {
        let name: &str = match get_attribute(attrs, "name") {
            Some(n) => n,
            None => {
                return Err(make_error(events, pos, ParseErrorKind::Missing(MissingAttribute::CallbackName)));
            },
        };
        match self.read_function(events, pos, ns_id, attrs) {
            Err(x) => Err(x),
            Ok((f, p)) => {
                let ghost before = self@;
                let ghost fv = f@;
                self.add_type(ns_id, name, Type::Callback(f));
                proof {
                    law_add_type_defines(before, ns_id as int, name@, SpecType::Callback(fv));
                }
                Ok(p)
            },
        }
    }

    /// Reads a `<function>` element of a namespace whose opening tag, with attributes
    /// `attrs`, came just before `pos`, and appends it to namespace `ns_id`.
    pub fn read_global_function(&mut self, events: &[XmlItem], pos: usize, ns_id: usize, attrs: &[Attribute]) -> (r:
        Result<usize, ParseError>)
        requires
            ns_id < old(self)@.len(),
        ensures
            follows_unit(
                final(self)@,
                r,
                spec_read_global_function(old(self)@, items_view(events@), pos as int, ns_id as int, attributes_view(attrs@)),
            ),
            extends(old(self)@, final(self)@),
            reads_element_unit(r, pos, items_view(events@)),
            r is Ok ==> (spec_read_function(old(self)@, items_view(events@), pos as int, ns_id as int, attributes_view(attrs@)).result
                matches Ok((f, _)) && final(self)@[ns_id as int].functions == old(self)@[ns_id as int].functions.push(f)),
            r is Err ==> final(self)@[ns_id as int].functions == old(self)@[ns_id as int].functions,
            final(self)@[ns_id as int].constants == old(self)@[ns_id as int].constants,
    {
        match self.read_function(events, pos, ns_id, attrs) {
            Err(x) => Err(x),
            Ok((f, p)) => {
                self.add_function(ns_id, f);
                Ok(p)
            },
        }
    }
}

/// What the content of a compound type element yields, in document order.
#[derive(Debug)]
pub struct Children {
    pub fields: Vec<Field>,
    pub members: Vec<Member>,
    pub functions: Vec<Function>,
}

impl View for Children {
    type V = SpecChildren;

    open spec fn view(&self) -> SpecChildren {
        SpecChildren {
            fields: fields_view(self.fields@),
            members: members_view(self.members@),
            functions: functions_view(self.functions@),
        }
    }
}

/// What an element called `name` inside a compound type element of kind `kind` is
/// read as.
pub fn child_action(kind: CompoundKind, name: &str) -> (r: ChildAction)
    ensures
        r == spec_child_action(kind, name@),
{
    match kind {
        CompoundKind::Class => if is_function_element(name) {
            ChildAction::Function
        } else if str_equal(name, "field") || str_equal(name, "property") || str_equal(name, "implements")
            || str_equal(name, "signal") || str_equal(name, "virtual-method") || is_doc_element(name) {
            ChildAction::Skip
        } else {
            ChildAction::Reject
        },
        CompoundKind::Record => if is_function_element(name) {
            ChildAction::Function
        } else if str_equal(name, "field") || str_equal(name, "union") || is_doc_element(name) {
            ChildAction::Skip
        } else {
            ChildAction::Reject
        },
        CompoundKind::Union => if str_equal(name, "field") {
            ChildAction::Field
        } else if is_function_element(name) {
            ChildAction::Function
        } else if str_equal(name, "record") || is_doc_element(name) {
            ChildAction::Skip
        } else {
            ChildAction::Reject
        },
        CompoundKind::Interface => if is_function_element(name) {
            ChildAction::Function
        } else {
            ChildAction::Skip
        },
        CompoundKind::Bitfield | CompoundKind::Enumeration => if str_equal(name, "member") {
            ChildAction::Member
        } else if is_function_element(name) {
            ChildAction::Function
        } else if is_doc_element(name) {
            ChildAction::Skip
        } else {
            ChildAction::Reject
        },
    }
}

impl Library {
    /// Reads the content of a compound type element of kind `kind` whose opening tag
    /// came just before `pos`.
    pub fn read_children(&mut self, events: &[XmlItem], pos: usize, ns_id: usize, kind: CompoundKind) -> (r:
        Result<(Children, usize), ParseError>)
        requires
            ns_id < old(self)@.len(),
        ensures
            follows(
                final(self)@,
                r,
                spec_read_children(old(self)@, items_view(events@), pos as int, ns_id as int, kind, no_children()),
            ),
            extends(old(self)@, final(self)@),
            keeps_lists(old(self)@, final(self)@),
            reads_element(r, pos, items_view(events@)),
    {
        let ghost e = items_view(events@);
        let ghost lib0 = self@;
        let ghost goal = spec_read_children(lib0, e, pos as int, ns_id as int, kind, no_children());
        let mut acc = Children { fields: Vec::new(), members: Vec::new(), functions: Vec::new() };
        assert(acc@ =~= no_children());
        let n = events.len();
        let mut p = pos;
        proof {
            lemma_within_start(e, pos as int);
        }
        while p < n
            invariant
                n == events@.len(),
                e == items_view(events@),
                pos <= p,
                within_element(e, pos as int, p as int),
                lib0 == old(self)@,
                ns_id < self@.len(),
                extends(lib0, self@),
                keeps_lists(lib0, self@),
                goal == spec_read_children(lib0, e, pos as int, ns_id as int, kind, no_children()),
                spec_read_children(self@, e, p as int, ns_id as int, kind, acc@) == goal,
            decreases n - p,
        {
            assert(e[p as int] == events@[p as int]@);
            match &events[p].event {
                XmlEventKind::StartElement { name: child, attributes, .. } => {
                    match child_action(kind, child.as_str()) {
                        ChildAction::Function => {
                            match self.read_function(events, p + 1, ns_id, attributes.as_slice()) {
                                Err(x) => {
                                    return Err(x);
                                },
                                Ok((f, q)) => {
                                    proof {
                                        lemma_within_child(e, pos as int, p as int, q as int);
                                    }
                                    let ghost before = acc@;
                                    acc.functions.push(f);
                                    assert(acc@ =~= (SpecChildren { functions: before.functions.push(f@), ..before }));
                                    p = q;
                                },
                            }
                        },
                        ChildAction::Field => {
                            match self.read_field(events, p + 1, ns_id, attributes.as_slice()) {
                                Err(x) => {
                                    return Err(x);
                                },
                                Ok((f, q)) => {
                                    proof {
                                        lemma_within_child(e, pos as int, p as int, q as int);
                                    }
                                    let ghost before = acc@;
                                    acc.fields.push(f);
                                    assert(acc@ =~= (SpecChildren { fields: before.fields.push(f@), ..before }));
                                    p = q;
                                },
                            }
                        },
                        ChildAction::Member => {
                            match self.read_member(events, p + 1, attributes.as_slice()) {
                                Err(x) => {
                                    return Err(x);
                                },
                                Ok((m, q)) => {
                                    proof {
                                        lemma_within_child(e, pos as int, p as int, q as int);
                                    }
                                    let ghost before = acc@;
                                    acc.members.push(m);
                                    assert(acc@ =~= (SpecChildren { members: before.members.push(m@), ..before }));
                                    p = q;
                                },
                            }
                        },
                        ChildAction::Skip => {
                            match ignore_element(events, p + 1) {
                                Err(x) => {
                                    return Err(x);
                                },
                                Ok(q) => {
                                    proof {
                                        lemma_within_child(e, pos as int, p as int, q as int);
                                    }
                                    p = q;
                                },
                            }
                        },
                        ChildAction::Reject => {
                            return Err(
                                make_error(events, p + 1, ParseErrorKind::UnexpectedElement(child.clone())),
                            );
                        },
                    }
                },
                XmlEventKind::EndElement => {
                    proof {
                        lemma_within_end(e, pos as int, p as int);
                    }
                    return Ok((acc, p + 1));
                },
                _ => {
                    if let Some(x) = check_interruption(&events[p]) {
                        return Err(x);
                    }
                    proof {
                        lemma_within_other(e, pos as int, p as int);
                    }
                    p = p + 1;
                },
            }
        }
        Err(make_end_error(events))
    }

    /// Reads a compound type element of kind `kind` whose opening tag, with attributes
    /// `attrs`, came just before `pos`, and defines its type in namespace `ns_id`
    /// (records that describe a class's type structure are read and left out).
    pub fn read_compound(
        &mut self,
        events: &[XmlItem],
        pos: usize,
        ns_id: usize,
        kind: CompoundKind,
        attrs: &[Attribute],
    ) -> (r: Result<usize, ParseError>)
        requires
            ns_id < old(self)@.len(),
        ensures
            follows_unit(
                final(self)@,
                r,
                spec_read_compound(old(self)@, items_view(events@), pos as int, ns_id as int, kind, attributes_view(attrs@)),
            ),
            extends(old(self)@, final(self)@),
            keeps_lists(old(self)@, final(self)@),
            reads_element_unit(r, pos, items_view(events@)),
            r is Ok && !(kind == CompoundKind::Record && attribute_value(attributes_view(attrs@), "is-gtype-struct"@) is Some)
                ==> (attribute_value(attributes_view(attrs@), "name"@) matches Some(n) && defines(final(self)@, ns_id as int, n)),
    {
        let missing = match kind {
            CompoundKind::Class => MissingAttribute::ClassName,
            CompoundKind::Record => MissingAttribute::RecordName,
            CompoundKind::Union => MissingAttribute::UnionName,
            CompoundKind::Interface => MissingAttribute::InterfaceName,
            CompoundKind::Bitfield => MissingAttribute::BitfieldName,
            CompoundKind::Enumeration => MissingAttribute::EnumerationName,
        };
        let name: &str = match get_attribute(attrs, "name") {
            Some(n) => n,
            None => {
                return Err(make_error(events, pos, ParseErrorKind::Missing(missing)));
            },
        };
        let gtype_name: &str = match get_attribute(attrs, "type-name") {
            Some(t) => t,
            None => name,
        };
        match self.read_children(events, pos, ns_id, kind) {
            Err(x) => Err(x),
            Ok((c, p)) => {
                if kind == CompoundKind::Record && get_attribute(attrs, "is-gtype-struct").is_some() {
                    return Ok(p);
                }
                let tname = String::from_str(gtype_name);
                let typ = match kind {
                    CompoundKind::Class => Type::Class(Class { name: tname, functions: c.functions }),
                    CompoundKind::Record => Type::Record(Record { name: tname, functions: c.functions }),
                    CompoundKind::Union => Type::Union(
                        Union { name: tname, fields: c.fields, functions: c.functions },
                    ),
                    CompoundKind::Interface => Type::Interface(
                        Interface { name: tname, functions: c.functions },
                    ),
                    CompoundKind::Bitfield => Type::Bitfield(
                        Bitfield { name: tname, members: c.members, functions: c.functions },
                    ),
                    CompoundKind::Enumeration => Type::Enumeration(
                        Enumeration { name: tname, members: c.members, functions: c.functions },
                    ),
                };
                let ghost before = self@;
                let ghost t = typ@;
                self.add_type(ns_id, name, typ);
                proof {
                    law_add_type_defines(before, ns_id as int, name@, t);
                }
                Ok(p)
            },
        }
    }

    /// Reads a `<class>` element (see `read_compound`).
    pub fn read_class(&mut self, events: &[XmlItem], pos: usize, ns_id: usize, attrs: &[Attribute]) -> (r:
        Result<usize, ParseError>)
        requires
            ns_id < old(self)@.len(),
        ensures
            follows_unit(
                final(self)@,
                r,
                spec_read_compound(old(self)@, items_view(events@), pos as int, ns_id as int, CompoundKind::Class, attributes_view(attrs@)),
            ),
            extends(old(self)@, final(self)@),
            keeps_lists(old(self)@, final(self)@),
            reads_element_unit(r, pos, items_view(events@)),
    {
        self.read_compound(events, pos, ns_id, CompoundKind::Class, attrs)
    }

    /// Reads a `<record>` element (see `read_compound`).
    pub fn read_record(&mut self, events: &[XmlItem], pos: usize, ns_id: usize, attrs: &[Attribute]) -> (r:
        Result<usize, ParseError>)
        requires
            ns_id < old(self)@.len(),
        ensures
            follows_unit(
                final(self)@,
                r,
                spec_read_compound(old(self)@, items_view(events@), pos as int, ns_id as int, CompoundKind::Record, attributes_view(attrs@)),
            ),
            extends(old(self)@, final(self)@),
            keeps_lists(old(self)@, final(self)@),
            reads_element_unit(r, pos, items_view(events@)),
    {
        self.read_compound(events, pos, ns_id, CompoundKind::Record, attrs)
    }

    /// Reads a `<union>` element (see `read_compound`).
    pub fn read_union(&mut self, events: &[XmlItem], pos: usize, ns_id: usize, attrs: &[Attribute]) -> (r:
        Result<usize, ParseError>)
        requires
            ns_id < old(self)@.len(),
        ensures
            follows_unit(
                final(self)@,
                r,
                spec_read_compound(old(self)@, items_view(events@), pos as int, ns_id as int, CompoundKind::Union, attributes_view(attrs@)),
            ),
            extends(old(self)@, final(self)@),
            keeps_lists(old(self)@, final(self)@),
            reads_element_unit(r, pos, items_view(events@)),
    {
        self.read_compound(events, pos, ns_id, CompoundKind::Union, attrs)
    }

    /// Reads an `<interface>` element (see `read_compound`).
    pub fn read_interface(&mut self, events: &[XmlItem], pos: usize, ns_id: usize, attrs: &[Attribute]) -> (r:
        Result<usize, ParseError>)
        requires
            ns_id < old(self)@.len(),
        ensures
            follows_unit(
                final(self)@,
                r,
                spec_read_compound(old(self)@, items_view(events@), pos as int, ns_id as int, CompoundKind::Interface, attributes_view(attrs@)),
            ),
            extends(old(self)@, final(self)@),
            keeps_lists(old(self)@, final(self)@),
            reads_element_unit(r, pos, items_view(events@)),
    {
        self.read_compound(events, pos, ns_id, CompoundKind::Interface, attrs)
    }

    /// Reads a `<bitfield>` element (see `read_compound`).
    pub fn read_bitfield(&mut self, events: &[XmlItem], pos: usize, ns_id: usize, attrs: &[Attribute]) -> (r:
        Result<usize, ParseError>)
        requires
            ns_id < old(self)@.len(),
        ensures
            follows_unit(
                final(self)@,
                r,
                spec_read_compound(old(self)@, items_view(events@), pos as int, ns_id as int, CompoundKind::Bitfield, attributes_view(attrs@)),
            ),
            extends(old(self)@, final(self)@),
            keeps_lists(old(self)@, final(self)@),
            reads_element_unit(r, pos, items_view(events@)),
    {
        self.read_compound(events, pos, ns_id, CompoundKind::Bitfield, attrs)
    }

    /// Reads an `<enumeration>` element (see `read_compound`).
    pub fn read_enumeration(&mut self, events: &[XmlItem], pos: usize, ns_id: usize, attrs: &[Attribute]) -> (r:
        Result<usize, ParseError>)
        requires
            ns_id < old(self)@.len(),
        ensures
            follows_unit(
                final(self)@,
                r,
                spec_read_compound(old(self)@, items_view(events@), pos as int, ns_id as int, CompoundKind::Enumeration, attributes_view(attrs@)),
            ),
            extends(old(self)@, final(self)@),
            keeps_lists(old(self)@, final(self)@),
            reads_element_unit(r, pos, items_view(events@)),
    {
        self.read_compound(events, pos, ns_id, CompoundKind::Enumeration, attrs)
    }
}

} // verus!
