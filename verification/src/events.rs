//! The XML events that reading consumes, and the errors that it reports.

use vstd::prelude::*;
use crate::text::{
    concat_str, debug_quoted, debug_text, first_index, lemma_first_index_absent,
    lemma_first_index_found, str_equal,
};

verus! {

/// An attribute of an element: its local name and its value.
#[derive(Debug)]
pub struct Attribute {
    pub name: String,
    pub value: String,
}

/// One event of an XML document.
#[derive(Debug)]
pub enum XmlEventKind {
    /// An opening tag, with the element's local name, namespace URI and attributes.
    StartElement { name: String, namespace: Option<String>, attributes: Vec<Attribute> },
    /// A closing tag.
    EndElement,
    /// The end of the document.
    EndDocument,
    /// A malformed document, with the XML reader's message.
    Error(String),
    /// Anything else: declarations, text, comments, processing instructions.
    Other,
}

/// An event with the position (row and column, counting from 0) that the XML
/// reader reports for it.
#[derive(Debug)]
pub struct XmlItem {
    pub event: XmlEventKind,
    pub row: u64,
    pub column: u64,
}

pub struct SpecAttribute {
    pub name: Seq<char>,
    pub value: Seq<char>,
}

pub enum SpecEvent {
    StartElement { name: Seq<char>, namespace: Option<Seq<char>>, attributes: Seq<SpecAttribute> },
    EndElement,
    EndDocument,
    Error(Seq<char>),
    Other,
}

pub struct SpecItem {
    pub event: SpecEvent,
    pub row: u64,
    pub column: u64,
}

impl View for Attribute {
    type V = SpecAttribute;

    open spec fn view(&self) -> SpecAttribute {
        SpecAttribute { name: self.name@, value: self.value@ }
    }
}

pub open spec fn attributes_view(attrs: Seq<Attribute>) -> Seq<SpecAttribute> {
    attrs.map_values(|a: Attribute| a@)
}

impl View for XmlEventKind {
    type V = SpecEvent;

    open spec fn view(&self) -> SpecEvent {
        match self {
            XmlEventKind::StartElement { name, namespace, attributes } => SpecEvent::StartElement {
                name: name@,
                namespace: match namespace {
                    Some(ns) => Some(ns@),
                    None => None,
                },
                attributes: attributes_view(attributes@),
            },
            XmlEventKind::EndElement => SpecEvent::EndElement,
            XmlEventKind::EndDocument => SpecEvent::EndDocument,
            XmlEventKind::Error(msg) => SpecEvent::Error(msg@),
            XmlEventKind::Other => SpecEvent::Other,
        }
    }
}

impl View for XmlItem {
    type V = SpecItem;

    open spec fn view(&self) -> SpecItem {
        SpecItem { event: self.event@, row: self.row, column: self.column }
    }
}

pub open spec fn items_view(items: Seq<XmlItem>) -> Seq<SpecItem> {
    items.map_values(|e: XmlItem| e@)
}

/// The attribute that an element lacks.
#[derive(Clone, Copy, PartialEq, Eq, Structural, Debug)]
pub enum MissingAttribute {
    NamespaceName,
    ClassName,
    RecordName,
    UnionName,
    FieldName,
    CallbackName,
    InterfaceName,
    BitfieldName,
    EnumerationName,
    ConstantName,
    ConstantValue,
    MemberName,
    MemberValue,
    FunctionName,
    TypeName,
}

/// Why reading a document failed.
#[derive(Debug)]
pub enum ParseErrorKind {
    /// The XML reader reported a malformed document.
    Xml(String),
    /// The document ended inside an element.
    UnexpectedEnd,
    /// A required attribute is absent.
    Missing(MissingAttribute),
    /// An element that may not stand where it stands, by its local name.
    UnexpectedElement(String),
    /// More than one `<type>` or `<array>` element.
    TooManyTypes,
    /// No `<type>` or `<array>` element.
    MissingType,
    /// More than one `<return-value>` element.
    TooManyReturnValues,
    /// No `<return-value>` element.
    MissingReturnValue,
    /// A `transfer-ownership` value that names no transfer mode.
    UnknownTransfer,
    /// Element types given to a type that is no known container.
    UnknownContainer,
}

/// A failure to read a document, with the position (row and column, counting from 0)
/// at which it was found.
#[derive(Debug)]
pub struct ParseError {
    pub kind: ParseErrorKind,
    pub row: u64,
    pub column: u64,
}

pub enum SpecErrorKind {
    Xml(Seq<char>),
    UnexpectedEnd,
    Missing(MissingAttribute),
    UnexpectedElement(Seq<char>),
    TooManyTypes,
    MissingType,
    TooManyReturnValues,
    MissingReturnValue,
    UnknownTransfer,
    UnknownContainer,
}

pub struct SpecParseError {
    pub kind: SpecErrorKind,
    pub row: u64,
    pub column: u64,
}

impl View for ParseErrorKind {
    type V = SpecErrorKind;

    open spec fn view(&self) -> SpecErrorKind {
        match self {
            ParseErrorKind::Xml(m) => SpecErrorKind::Xml(m@),
            ParseErrorKind::UnexpectedEnd => SpecErrorKind::UnexpectedEnd,
            ParseErrorKind::Missing(a) => SpecErrorKind::Missing(*a),
            ParseErrorKind::UnexpectedElement(n) => SpecErrorKind::UnexpectedElement(n@),
            ParseErrorKind::TooManyTypes => SpecErrorKind::TooManyTypes,
            ParseErrorKind::MissingType => SpecErrorKind::MissingType,
            ParseErrorKind::TooManyReturnValues => SpecErrorKind::TooManyReturnValues,
            ParseErrorKind::MissingReturnValue => SpecErrorKind::MissingReturnValue,
            ParseErrorKind::UnknownTransfer => SpecErrorKind::UnknownTransfer,
            ParseErrorKind::UnknownContainer => SpecErrorKind::UnknownContainer,
        }
    }
}

impl View for ParseError {
    type V = SpecParseError;

    open spec fn view(&self) -> SpecParseError {
        SpecParseError { kind: self.kind@, row: self.row, column: self.column }
    }
}

/// The names of the attributes, in order.
pub open spec fn attribute_names(attrs: Seq<SpecAttribute>) -> Seq<Seq<char>> {
    attrs.map_values(|a: SpecAttribute| a.name)
}

/// The value of the first attribute called `name`.
pub open spec fn attribute_value(attrs: Seq<SpecAttribute>, name: Seq<char>) -> Option<Seq<char>> {
    match first_index(attribute_names(attrs), name) {
        Some(i) => Some(attrs[i].value),
        None => None,
    }
}

/// The value of the first attribute called `name`, if any.
pub fn get_attribute<'a>(attrs: &'a [Attribute], name: &str) -> (r: Option<&'a str>)
    ensures
        match r {
            Some(v) => attribute_value(attributes_view(attrs@), name@) == Some(v@),
            None => attribute_value(attributes_view(attrs@), name@) is None,
        },
{
    let ghost names = attribute_names(attributes_view(attrs@));
    let n = attrs.len();
    let mut i: usize = 0;
    while i < n
        invariant
            n == attrs@.len(),
            names == attribute_names(attributes_view(attrs@)),
            i <= n,
            forall|j: int| 0 <= j < i ==> names[j] != name@,
        decreases n - i,
    {
        if str_equal(attrs[i].name.as_str(), name) {
            proof {
                lemma_first_index_found(names, name@, i as int);
            }
            return Some(attrs[i].value.as_str());
        }
        i = i + 1;
    }
    proof {
        lemma_first_index_absent(names, name@);
    }
    None
}

/// The message that reports a missing attribute.
pub open spec fn missing_message(a: MissingAttribute) -> Seq<char> {
    match a {
        MissingAttribute::NamespaceName => "Missing namespace name"@,
        MissingAttribute::ClassName => "Missing class name"@,
        MissingAttribute::RecordName => "Missing record name"@,
        MissingAttribute::UnionName => "Missing union name"@,
        MissingAttribute::FieldName => "Missing field name"@,
        MissingAttribute::CallbackName => "Missing callback name"@,
        MissingAttribute::InterfaceName => "Missing interface name"@,
        MissingAttribute::BitfieldName => "Missing bitfield name"@,
        MissingAttribute::EnumerationName => "Missing enumeration name"@,
        MissingAttribute::ConstantName => "Missing constant name"@,
        MissingAttribute::ConstantValue => "Missing constant value"@,
        MissingAttribute::MemberName => "Missing member name"@,
        MissingAttribute::MemberValue => "Missing member value"@,
        MissingAttribute::FunctionName => "Missing function name"@,
        MissingAttribute::TypeName => "Missing type name"@,
    }
}

/// The message that reports an error.
pub open spec fn error_message(k: SpecErrorKind) -> Seq<char> {
    match k {
        SpecErrorKind::Xml(m) => m,
        SpecErrorKind::UnexpectedEnd => "Unexpected end of document"@,
        SpecErrorKind::Missing(a) => missing_message(a),
        SpecErrorKind::UnexpectedElement(n) => "Unexpected element <"@ + n + ">"@,
        SpecErrorKind::TooManyTypes => "Too many <type> elements"@,
        SpecErrorKind::MissingType => "Missing <type> element"@,
        SpecErrorKind::TooManyReturnValues => "Too many <return-value> elements"@,
        SpecErrorKind::MissingReturnValue => "Missing <return-value> element"@,
        SpecErrorKind::UnknownTransfer => "Unknown ownership transfer mode"@,
        SpecErrorKind::UnknownContainer => "Unknown container type"@,
    }
}

impl MissingAttribute {
    /// The message that reports this missing attribute.
    pub fn message(&self) -> (r: String)
        ensures
            r@ == missing_message(*self),
    {
        match self {
            MissingAttribute::NamespaceName => String::from_str("Missing namespace name"),
            MissingAttribute::ClassName => String::from_str("Missing class name"),
            MissingAttribute::RecordName => String::from_str("Missing record name"),
            MissingAttribute::UnionName => String::from_str("Missing union name"),
            MissingAttribute::FieldName => String::from_str("Missing field name"),
            MissingAttribute::CallbackName => String::from_str("Missing callback name"),
            MissingAttribute::InterfaceName => String::from_str("Missing interface name"),
            MissingAttribute::BitfieldName => String::from_str("Missing bitfield name"),
            MissingAttribute::EnumerationName => String::from_str("Missing enumeration name"),
            MissingAttribute::ConstantName => String::from_str("Missing constant name"),
            MissingAttribute::ConstantValue => String::from_str("Missing constant value"),
            MissingAttribute::MemberName => String::from_str("Missing member name"),
            MissingAttribute::MemberValue => String::from_str("Missing member value"),
            MissingAttribute::FunctionName => String::from_str("Missing function name"),
            MissingAttribute::TypeName => String::from_str("Missing type name"),
        }
    }
}

impl ParseErrorKind {
    /// The message that reports this error.
    pub fn message(&self) -> (r: String)
        ensures
            r@ == error_message(self@),
    {
        match self {
            ParseErrorKind::Xml(m) => m.clone(),
            ParseErrorKind::UnexpectedEnd => String::from_str("Unexpected end of document"),
            ParseErrorKind::Missing(a) => a.message(),
            ParseErrorKind::UnexpectedElement(n) => {
                let mut s = concat_str("Unexpected element <", n.as_str());
                s.append(">");
                s
            },
            ParseErrorKind::TooManyTypes => String::from_str("Too many <type> elements"),
            ParseErrorKind::MissingType => String::from_str("Missing <type> element"),
            ParseErrorKind::TooManyReturnValues => String::from_str("Too many <return-value> elements"),
            ParseErrorKind::MissingReturnValue => String::from_str("Missing <return-value> element"),
            ParseErrorKind::UnknownTransfer => String::from_str("Unknown ownership transfer mode"),
            ParseErrorKind::UnknownContainer => String::from_str("Unknown container type"),
        }
    }
}

/// An element directly inside a namespace that reading skipped because it does not
/// know it: its local name and its `name` attribute.
#[derive(Debug)]
pub struct UnknownElement {
    pub name: String,
    pub name_attribute: Option<String>,
}

pub struct SpecUnknown {
    pub name: Seq<char>,
    pub name_attribute: Option<Seq<char>>,
}

impl View for UnknownElement {
    type V = SpecUnknown;

    open spec fn view(&self) -> SpecUnknown {
        SpecUnknown {
            name: self.name@,
            name_attribute: match self.name_attribute {
                Some(n) => Some(n@),
                None => None,
            },
        }
    }
}

pub open spec fn unknowns_view(us: Seq<UnknownElement>) -> Seq<SpecUnknown> {
    us.map_values(|u: UnknownElement| u@)
}

/// The line that reports a skipped element: `<name name=Some("value")>`, or
/// `<name name=None>` without a `name` attribute.
pub open spec fn unknown_line(u: SpecUnknown) -> Seq<char> {
    "<"@ + u.name + " name="@ + match u.name_attribute {
        Some(v) => "Some("@ + debug_text(v) + ")"@,
        None => "None"@,
    } + ">"@
}

impl UnknownElement {
    /// The line that reports this skipped element.
    pub fn line(&self) -> (r: String)
        ensures
            r@ == unknown_line(self@),
    {
        let mut s = concat_str("<", self.name.as_str());
        s.append(" name=");
        match &self.name_attribute {
            Some(v) => {
                s.append("Some(");
                let q = debug_quoted(v.as_str());
                s.append(q.as_str());
                s.append(")");
            },
            None => {
                s.append("None");
            },
        }
        s.append(">");
        proof {
            assert(s@ =~= unknown_line(self@));
        }
        s
    }
}

} // verus!
