//! Reading GObject-introspection repositories (`.gir` XML files) into a library
//! model of namespaces, types, functions and constants.
//!
//! - `text`: string operations with exact contracts.
//! - `library`: the library model and its operations (lookup and registration).
//! - `events`: the XML events that reading consumes, and the errors it reports.
//! - `xml_stream`: xml-rs's pull reader, behind its trusted items.
//! - `xml_input`: the events of a document, read with xml-rs.
//! - `grammar`: what reading each element means, over the events and the model.
//! - `parser`: the element readers, each proved to do what `grammar` states.
//! - `document`: namespaces, repositories and whole documents, with includes.
//! - `laws`: properties of the model that hold across operations.
//! - `element_laws`: what each element reader makes of its element.

pub mod text;
pub mod library;
pub mod events;
pub mod grammar;
pub mod parser;
pub mod document;
pub mod xml_stream;
pub mod xml_input;
pub mod laws;
pub mod element_laws;
