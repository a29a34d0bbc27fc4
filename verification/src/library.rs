//! The library model that reading fills: namespaces holding named types,
//! constants and global functions, with lookup and registration by name.

use vstd::prelude::*;
use crate::text::{
    decimal, push_decimal, first_index, lemma_first_index_absent, lemma_first_index_found, split_qualified,
    str_equal,
};

verus! {

/// The namespace that holds fundamental types and container instances.
pub const INTERNAL_NAMESPACE: usize = 0;

/// Identifies a type: its namespace and its index among that namespace's types.
#[derive(Clone, Copy, PartialEq, Eq, Structural, Debug)]
pub struct TypeId {
    pub ns_id: usize,
    pub id: usize,
}

impl View for TypeId {
    type V = TypeId;

    open spec fn view(&self) -> TypeId {
        *self
    }
}

/// How ownership of a value passes between caller and callee.
#[derive(Clone, Copy, PartialEq, Eq, Structural, Debug)]
pub enum Transfer {
    Nothing,
    Container,
    Full,
}

/// The transfer mode that a `transfer-ownership` attribute value names.
pub open spec fn transfer_named(name: Seq<char>) -> Option<Transfer> {
    if name == "none"@ {
        Some(Transfer::Nothing)
    } else if name == "container"@ {
        Some(Transfer::Container)
    } else if name == "full"@ {
        Some(Transfer::Full)
    } else {
        None
    }
}

impl Transfer {
    /// Looks up a transfer mode by its name in the repository format.
    pub fn by_name(name: &str) -> (r: Option<Transfer>)
        ensures
            r == transfer_named(name@),
    {
        if str_equal(name, "none") {
            Some(Transfer::Nothing)
        } else if str_equal(name, "container") {
            Some(Transfer::Container)
        } else if str_equal(name, "full") {
            Some(Transfer::Full)
        } else {
            None
        }
    }
}

#[derive(Debug)]
pub struct Parameter {
    pub name: String,
    pub typ: TypeId,
    pub transfer: Transfer,
}

#[derive(Debug)]
pub struct Function {
    pub name: String,
    pub c_identifier: String,
    pub parameters: Vec<Parameter>,
    pub ret: Parameter,
}

#[derive(Debug)]
pub struct Field {
    pub name: String,
    pub typ: TypeId,
}

#[derive(Debug)]
pub struct Member {
    pub name: String,
    pub value: String,
    pub c_identifier: String,
}

#[derive(Debug)]
pub struct Constant {
    pub name: String,
    pub typ: TypeId,
    pub value: String,
}

#[derive(Debug)]
pub struct Alias {
    pub name: String,
    pub c_identifier: String,
    pub typ: TypeId,
}

#[derive(Debug)]
pub struct Class {
    pub name: String,
    pub functions: Vec<Function>,
}

#[derive(Debug)]
pub struct Record {
    pub name: String,
    pub functions: Vec<Function>,
}

#[derive(Debug)]
pub struct Interface {
    pub name: String,
    pub functions: Vec<Function>,
}

#[derive(Debug)]
pub struct Union {
    pub name: String,
    pub fields: Vec<Field>,
    pub functions: Vec<Function>,
}

#[derive(Debug)]
pub struct Bitfield {
    pub name: String,
    pub members: Vec<Member>,
    pub functions: Vec<Function>,
}

#[derive(Debug)]
pub struct Enumeration {
    pub name: String,
    pub members: Vec<Member>,
    pub functions: Vec<Function>,
}

#[derive(Debug)]
pub enum Type {
    Fundamental,
    Alias(Alias),
    Enumeration(Enumeration),
    Bitfield(Bitfield),
    Record(Record),
    Union(Union),
    Callback(Function),
    Interface(Interface),
    Class(Class),
    Array(TypeId),
    HashTable(TypeId, TypeId),
    List(TypeId),
    SList(TypeId),
}

/// A named type of a namespace; `typ` is `None` while the name is only referred to.
#[derive(Debug)]
pub struct TypeEntry {
    pub name: String,
    pub typ: Option<Type>,
}

#[derive(Debug)]
pub struct Namespace {
    pub name: String,
    pub types: Vec<TypeEntry>,
    pub constants: Vec<Constant>,
    pub functions: Vec<Function>,
}

#[derive(Debug)]
pub struct Library {
    pub namespaces: Vec<Namespace>,
}

// ---------------------------------------------------------------------------
// Mathematical models
// ---------------------------------------------------------------------------

pub struct SpecParameter {
    pub name: Seq<char>,
    pub typ: TypeId,
    pub transfer: Transfer,
}

pub struct SpecFunction {
    pub name: Seq<char>,
    pub c_identifier: Seq<char>,
    pub parameters: Seq<SpecParameter>,
    pub ret: SpecParameter,
}

pub struct SpecField {
    pub name: Seq<char>,
    pub typ: TypeId,
}

pub struct SpecMember {
    pub name: Seq<char>,
    pub value: Seq<char>,
    pub c_identifier: Seq<char>,
}

pub struct SpecConstant {
    pub name: Seq<char>,
    pub typ: TypeId,
    pub value: Seq<char>,
}

pub struct SpecAlias {
    pub name: Seq<char>,
    pub c_identifier: Seq<char>,
    pub typ: TypeId,
}

pub enum SpecType {
    Fundamental,
    Alias(SpecAlias),
    Enumeration { name: Seq<char>, members: Seq<SpecMember>, functions: Seq<SpecFunction> },
    Bitfield { name: Seq<char>, members: Seq<SpecMember>, functions: Seq<SpecFunction> },
    Record { name: Seq<char>, functions: Seq<SpecFunction> },
    Union { name: Seq<char>, fields: Seq<SpecField>, functions: Seq<SpecFunction> },
    Callback(SpecFunction),
    Interface { name: Seq<char>, functions: Seq<SpecFunction> },
    Class { name: Seq<char>, functions: Seq<SpecFunction> },
    Array(TypeId),
    HashTable(TypeId, TypeId),
    List(TypeId),
    SList(TypeId),
}

pub struct SpecTypeEntry {
    pub name: Seq<char>,
    pub typ: Option<SpecType>,
}

pub struct SpecNamespace {
    pub name: Seq<char>,
    pub types: Seq<SpecTypeEntry>,
    pub constants: Seq<SpecConstant>,
    pub functions: Seq<SpecFunction>,
}

/// The model of a whole library: its namespaces, by id.
pub type LibraryModel = Seq<SpecNamespace>;

impl View for Parameter {
    type V = SpecParameter;

    open spec fn view(&self) -> SpecParameter {
        SpecParameter { name: self.name@, typ: self.typ, transfer: self.transfer }
    }
}

pub open spec fn parameters_view(ps: Seq<Parameter>) -> Seq<SpecParameter> {
    ps.map_values(|p: Parameter| p@)
}

impl View for Function {
    type V = SpecFunction;

    open spec fn view(&self) -> SpecFunction {
        SpecFunction {
            name: self.name@,
            c_identifier: self.c_identifier@,
            parameters: parameters_view(self.parameters@),
            ret: self.ret@,
        }
    }
}

pub open spec fn functions_view(fs: Seq<Function>) -> Seq<SpecFunction> {
    fs.map_values(|f: Function| f@)
}

impl View for Field {
    type V = SpecField;

    open spec fn view(&self) -> SpecField {
        SpecField { name: self.name@, typ: self.typ }
    }
}

pub open spec fn fields_view(fs: Seq<Field>) -> Seq<SpecField> {
    fs.map_values(|f: Field| f@)
}

impl View for Member {
    type V = SpecMember;

    open spec fn view(&self) -> SpecMember {
        SpecMember { name: self.name@, value: self.value@, c_identifier: self.c_identifier@ }
    }
}

pub open spec fn members_view(ms: Seq<Member>) -> Seq<SpecMember> {
    ms.map_values(|m: Member| m@)
}

impl View for Constant {
    type V = SpecConstant;

    open spec fn view(&self) -> SpecConstant {
        SpecConstant { name: self.name@, typ: self.typ, value: self.value@ }
    }
}

pub open spec fn constants_view(cs: Seq<Constant>) -> Seq<SpecConstant> {
    cs.map_values(|c: Constant| c@)
}

impl View for Alias {
    type V = SpecAlias;

    open spec fn view(&self) -> SpecAlias {
        SpecAlias { name: self.name@, c_identifier: self.c_identifier@, typ: self.typ }
    }
}

impl View for Type {
    type V = SpecType;

    open spec fn view(&self) -> SpecType {
        match self {
            Type::Fundamental => SpecType::Fundamental,
            Type::Alias(a) => SpecType::Alias(a@),
            Type::Enumeration(e) => SpecType::Enumeration {
                name: e.name@,
                members: members_view(e.members@),
                functions: functions_view(e.functions@),
            },
            Type::Bitfield(b) => SpecType::Bitfield {
                name: b.name@,
                members: members_view(b.members@),
                functions: functions_view(b.functions@),
            },
            Type::Record(r) => SpecType::Record {
                name: r.name@,
                functions: functions_view(r.functions@),
            },
            Type::Union(u) => SpecType::Union {
                name: u.name@,
                fields: fields_view(u.fields@),
                functions: functions_view(u.functions@),
            },
            Type::Callback(f) => SpecType::Callback(f@),
            Type::Interface(i) => SpecType::Interface {
                name: i.name@,
                functions: functions_view(i.functions@),
            },
            Type::Class(c) => SpecType::Class {
                name: c.name@,
                functions: functions_view(c.functions@),
            },
            Type::Array(t) => SpecType::Array(*t),
            Type::HashTable(k, v) => SpecType::HashTable(*k, *v),
            Type::List(t) => SpecType::List(*t),
            Type::SList(t) => SpecType::SList(*t),
        }
    }
}

impl View for TypeEntry {
    type V = SpecTypeEntry;

    open spec fn view(&self) -> SpecTypeEntry {
        SpecTypeEntry {
            name: self.name@,
            typ: match self.typ {
                Some(t) => Some(t@),
                None => None,
            },
        }
    }
}

pub open spec fn entries_view(es: Seq<TypeEntry>) -> Seq<SpecTypeEntry> {
    es.map_values(|e: TypeEntry| e@)
}

impl View for Namespace {
    type V = SpecNamespace;

    open spec fn view(&self) -> SpecNamespace {
        SpecNamespace {
            name: self.name@,
            types: entries_view(self.types@),
            constants: constants_view(self.constants@),
            functions: functions_view(self.functions@),
        }
    }
}

impl View for Library {
    type V = LibraryModel;

    open spec fn view(&self) -> LibraryModel {
        self.namespaces@.map_values(|n: Namespace| n@)
    }
}

// ---------------------------------------------------------------------------
// Operations on the model
// ---------------------------------------------------------------------------

/// The names of fundamental types that a new library knows.
pub open spec fn fundamental_names() -> Seq<Seq<char>> {
    seq![
        "none"@, "gboolean"@, "gchar"@, "guchar"@, "gshort"@, "gushort"@, "gint"@, "guint"@,
        "glong"@, "gulong"@, "gint8"@, "guint8"@, "gint16"@, "guint16"@, "gint32"@,
        "guint32"@, "gint64"@, "guint64"@, "gsize"@, "gssize"@, "gfloat"@, "gdouble"@,
        "gpointer"@, "gconstpointer"@, "utf8"@, "filename"@, "GType"@, "varargs"@,
    ]
}

/// A new library: the internal namespace `*` with the fundamental types.
pub open spec fn initial_library() -> LibraryModel {
    seq![
        SpecNamespace {
            name: "*"@,
            types: fundamental_names().map_values(
                |n: Seq<char>| SpecTypeEntry { name: n, typ: Some(SpecType::Fundamental) },
            ),
            constants: Seq::empty(),
            functions: Seq::empty(),
        },
    ]
}

/// No two namespaces share a name.
pub open spec fn unique_names(lib: LibraryModel) -> bool {
    forall|i: int, j: int| 0 <= i < j < lib.len() ==> (#[trigger] lib[i]).name != (#[trigger] lib[j]).name
}

/// Every namespace of `before` is still in `after`, under the same id and name, and
/// each namespace that `after` adds has a name that no namespace before it has.
pub open spec fn extends(before: LibraryModel, after: LibraryModel) -> bool {
    &&& before.len() <= after.len()
    &&& forall|i: int| 0 <= i < before.len() ==> (#[trigger] after[i]).name == before[i].name
    &&& adds_fresh_names(before, after)
}

/// Each namespace of `after` past those of `before` has a name that no namespace
/// before it has.
pub open spec fn adds_fresh_names(before: LibraryModel, after: LibraryModel) -> bool {
    forall|i: int, j: int|
        0 <= i < j < after.len() && before.len() <= j ==> (#[trigger] after[i]).name != (#[trigger] after[j]).name
}

/// The constants and global functions of every namespace of `before` are as they were.
pub open spec fn keeps_lists(before: LibraryModel, after: LibraryModel) -> bool {
    &&& before.len() <= after.len()
    &&& forall|i: int|
        0 <= i < before.len() ==> (#[trigger] after[i]).functions == before[i].functions
            && after[i].constants == before[i].constants
}

pub open spec fn empty_namespace(name: Seq<char>) -> SpecNamespace {
    SpecNamespace { name, types: Seq::empty(), constants: Seq::empty(), functions: Seq::empty() }
}

pub open spec fn namespace_names(lib: LibraryModel) -> Seq<Seq<char>> {
    lib.map_values(|n: SpecNamespace| n.name)
}

/// The id of the first namespace called `name`.
pub open spec fn find_namespace(lib: LibraryModel, name: Seq<char>) -> Option<int> {
    first_index(namespace_names(lib), name)
}

/// The library after looking up a namespace by name, adding it if absent, and its id.
pub open spec fn get_namespace(lib: LibraryModel, name: Seq<char>) -> (LibraryModel, int) {
    match find_namespace(lib, name) {
        Some(i) => (lib, i),
        None => (lib.push(empty_namespace(name)), lib.len() as int),
    }
}

pub open spec fn rename_namespace(lib: LibraryModel, ns: int, name: Seq<char>) -> LibraryModel {
    lib.update(ns, SpecNamespace { name, ..lib[ns] })
}

pub open spec fn type_names(types: Seq<SpecTypeEntry>) -> Seq<Seq<char>> {
    types.map_values(|e: SpecTypeEntry| e.name)
}

/// The index of the first type called `name` in namespace `ns`.
pub open spec fn find_type(lib: LibraryModel, ns: int, name: Seq<char>) -> Option<int> {
    if 0 <= ns < lib.len() {
        first_index(type_names(lib[ns].types), name)
    } else {
        None
    }
}

/// Namespace `ns` holds a definition under `name`: its first entry of that name is
/// defined.
pub open spec fn defines(lib: LibraryModel, ns: int, name: Seq<char>) -> bool {
    find_type(lib, ns, name) matches Some(i) && lib[ns].types[i].typ is Some
}

pub open spec fn with_types(n: SpecNamespace, types: Seq<SpecTypeEntry>) -> SpecNamespace {
    SpecNamespace { types, ..n }
}

pub open spec fn type_id(ns: int, id: int) -> TypeId {
    TypeId { ns_id: ns as usize, id: id as usize }
}

/// Appends an entry to namespace `ns`.
pub open spec fn push_entry(lib: LibraryModel, ns: int, entry: SpecTypeEntry) -> (LibraryModel, TypeId) {
    (
        lib.update(ns, with_types(lib[ns], lib[ns].types.push(entry))),
        type_id(ns, lib[ns].types.len() as int),
    )
}

/// Defines type `name` of namespace `ns` as `t`: the entry of that name, if any, is
/// overwritten in place; otherwise a new entry is appended.
pub open spec fn add_type(lib: LibraryModel, ns: int, name: Seq<char>, t: SpecType) -> (
    LibraryModel,
    TypeId,
) {
    match find_type(lib, ns, name) {
        Some(i) => (
            lib.update(
                ns,
                with_types(lib[ns], lib[ns].types.update(i, SpecTypeEntry { name, typ: Some(t) })),
            ),
            type_id(ns, i),
        ),
        None => push_entry(lib, ns, SpecTypeEntry { name, typ: Some(t) }),
    }
}

/// The type named `name` in namespace `ns`, or, when absent, a new undefined entry for it.
pub open spec fn find_or_declare(lib: LibraryModel, ns: int, name: Seq<char>) -> (LibraryModel, TypeId) {
    match find_type(lib, ns, name) {
        Some(i) => (lib, type_id(ns, i)),
        None => push_entry(lib, ns, SpecTypeEntry { name, typ: None }),
    }
}

/// Resolves a type reference made from namespace `ns`: a name of `ns` itself; else a
/// qualified `Ns.Name` in namespace `Ns`; else a fundamental type; else a new undefined
/// entry of `ns`.
pub open spec fn get_type(lib: LibraryModel, ns: int, name: Seq<char>) -> (LibraryModel, TypeId) {
    match find_type(lib, ns, name) {
        Some(i) => (lib, type_id(ns, i)),
        None => match split_qualified(name) {
            Some((qualifier, local)) => {
                let (lib1, q) = get_namespace(lib, qualifier);
                find_or_declare(lib1, q, local)
            },
            None => match find_type(lib, INTERNAL_NAMESPACE as int, name) {
                Some(i) => (lib, type_id(INTERNAL_NAMESPACE as int, i)),
                None => push_entry(lib, ns, SpecTypeEntry { name, typ: None }),
            },
        },
    }
}

pub open spec fn id_text(t: TypeId) -> Seq<char> {
    decimal(t.ns_id as nat) + "."@ + decimal(t.id as nat)
}

/// The container type that `name` with the given element types denotes, with the
/// name under which it is registered in the internal namespace.
pub open spec fn container_type(name: Seq<char>, inner: Seq<TypeId>) -> Option<(Seq<char>, SpecType)> {
    if name == "array"@ && inner.len() == 1 {
        Some(("[#"@ + id_text(inner[0]) + "]"@, SpecType::Array(inner[0])))
    } else if name == "GLib.HashTable"@ && inner.len() == 2 {
        Some(
            (
                "HashTable(#"@ + id_text(inner[0]) + ", #"@ + id_text(inner[1]) + ")"@,
                SpecType::HashTable(inner[0], inner[1]),
            ),
        )
    } else if name == "GLib.List"@ && inner.len() == 1 {
        Some(("List(#"@ + id_text(inner[0]) + ")"@, SpecType::List(inner[0])))
    } else if name == "GLib.SList"@ && inner.len() == 1 {
        Some(("SList(#"@ + id_text(inner[0]) + ")"@, SpecType::SList(inner[0])))
    } else {
        None
    }
}

/// Registers a container type in the internal namespace, if `name` denotes one.
pub open spec fn container(lib: LibraryModel, name: Seq<char>, inner: Seq<TypeId>) -> Option<(LibraryModel, TypeId)> {
    match container_type(name, inner) {
        Some((n, t)) => Some(add_type(lib, INTERNAL_NAMESPACE as int, n, t)),
        None => None,
    }
}

pub open spec fn add_function(lib: LibraryModel, ns: int, f: SpecFunction) -> LibraryModel {
    lib.update(ns, SpecNamespace { functions: lib[ns].functions.push(f), ..lib[ns] })
}

pub open spec fn add_constant(lib: LibraryModel, ns: int, c: SpecConstant) -> LibraryModel {
    lib.update(ns, SpecNamespace { constants: lib[ns].constants.push(c), ..lib[ns] })
}

// ---------------------------------------------------------------------------
// Executable operations
// ---------------------------------------------------------------------------

impl Library {
    /// The id of the first namespace called `name`.
    pub fn find_namespace(&self, name: &str) -> (r: Option<usize>)
        ensures
            match r {
                Some(i) => find_namespace(self@, name@) == Some(i as int),
                None => find_namespace(self@, name@) is None,
            },
            r is None ==> forall|j: int| 0 <= j < self@.len() ==> self@[j].name != name@,
    {
        let n = self.namespaces.len();
        let mut i: usize = 0;
        while i < n
            invariant
                n == self.namespaces@.len(),
                i <= n,
                forall|j: int| 0 <= j < i ==> namespace_names(self@)[j] != name@,
            decreases n - i,
        {
            if str_equal(self.namespaces[i].name.as_str(), name) {
                proof {
                    lemma_first_index_found(namespace_names(self@), name@, i as int);
                }
                return Some(i);
            }
            i = i + 1;
        }
        proof {
            lemma_first_index_absent(namespace_names(self@), name@);
            assert forall|j: int| 0 <= j < self@.len() implies self@[j].name != name@ by {
                assert(namespace_names(self@)[j] == self@[j].name);
            }
        }
        None
    }

    /// Whether some namespace is called `name`.
    pub fn has_namespace(&self, name: &str) -> (r: bool)
        ensures
            r == find_namespace(self@, name@) is Some,
    {
        self.find_namespace(name).is_some()
    }

    /// The id of the namespace called `name`, which is added if absent.
    pub fn get_namespace(&mut self, name: &str) -> (r: usize)
        ensures
            (final(self)@, r as int) == get_namespace(old(self)@, name@),
            keeps_lists(old(self)@, final(self)@),
            extends(old(self)@, final(self)@),
    {
        match self.find_namespace(name) {
            Some(i) => i,
            None => {
                proof {
                    assert forall|j: int| 0 <= j < self@.len() implies namespace_names(self@)[j] != name@ by {
                        assert(namespace_names(self@)[j] == self@[j].name);
                    }
                }
                let id = self.namespaces.len();
                let ns = Namespace {
                    name: String::from_str(name),
                    types: Vec::new(),
                    constants: Vec::new(),
                    functions: Vec::new(),
                };
                self.namespaces.push(ns);
                proof {
                    assert(entries_view(Seq::<TypeEntry>::empty()) =~= Seq::empty());
                    assert(constants_view(Seq::<Constant>::empty()) =~= Seq::empty());
                    assert(functions_view(Seq::<Function>::empty()) =~= Seq::empty());
                    assert(self@ =~= old(self)@.push(empty_namespace(name@)));
                }
                id
            },
        }
    }

    /// Sets the name of namespace `ns_id`.
    pub fn rename_namespace(&mut self, ns_id: usize, name: &str)
        requires
            ns_id < old(self)@.len(),
        ensures
            final(self)@ == rename_namespace(old(self)@, ns_id as int, name@),
    {
        self.namespaces[ns_id].name = String::from_str(name);
        proof {
            assert(self@ =~= rename_namespace(old(self)@, ns_id as int, name@));
        }
    }

    /// The index of the first type called `name` in namespace `ns_id`.
    pub fn find_type(&self, ns_id: usize, name: &str) -> (r: Option<usize>)
        ensures
            match r {
                Some(i) => find_type(self@, ns_id as int, name@) == Some(i as int),
                None => find_type(self@, ns_id as int, name@) is None,
            },
    {
        if ns_id >= self.namespaces.len() {
            return None;
        }
        let types = &self.namespaces[ns_id].types;
        let ghost names = type_names(self@[ns_id as int].types);
        let n = types.len();
        let mut i: usize = 0;
        while i < n
            invariant
                n == types@.len(),
                names == type_names(entries_view(types@)),
                names == type_names(self@[ns_id as int].types),
                ns_id < self@.len(),
                i <= n,
                forall|j: int| 0 <= j < i ==> names[j] != name@,
            decreases n - i,
        {
            if str_equal(types[i].name.as_str(), name) {
                proof {
                    lemma_first_index_found(names, name@, i as int);
                    assert(self@.len() == self.namespaces@.len());
                }
                return Some(i);
            }
            i = i + 1;
        }
        proof {
            lemma_first_index_absent(names, name@);
            assert(self@.len() == self.namespaces@.len());
        }
        None
    }

    /// Appends an entry to namespace `ns_id`.
    fn push_entry(&mut self, ns_id: usize, entry: TypeEntry) -> (r: TypeId)
        requires
            ns_id < old(self)@.len(),
        ensures
            (final(self)@, r) == push_entry(old(self)@, ns_id as int, entry@),
            keeps_lists(old(self)@, final(self)@),
            extends(old(self)@, final(self)@),
    {
        let id = self.namespaces[ns_id].types.len();
        self.namespaces[ns_id].types.push(entry);
        proof {
            let ghost n = old(self)@[ns_id as int];
            assert(entries_view(self.namespaces@[ns_id as int].types@) =~= n.types.push(entry@));
            assert(self@ =~= push_entry(old(self)@, ns_id as int, entry@).0);
        }
        TypeId { ns_id, id }
    }

    /// Defines type `name` of namespace `ns_id` as `typ`, replacing the entry of that
    /// name if there is one, and returns its id.
    pub fn add_type(&mut self, ns_id: usize, name: &str, typ: Type) -> (r: TypeId)
        requires
            ns_id < old(self)@.len(),
        ensures
            (final(self)@, r) == add_type(old(self)@, ns_id as int, name@, typ@),
            keeps_lists(old(self)@, final(self)@),
            extends(old(self)@, final(self)@),
    {
        let entry = TypeEntry { name: String::from_str(name), typ: Some(typ) };
        match self.find_type(ns_id, name) {
            Some(i) => {
                self.namespaces[ns_id].types[i] = entry;
                proof {
                    let ghost n = old(self)@[ns_id as int];
                    assert(entries_view(self.namespaces@[ns_id as int].types@) =~= n.types.update(
                        i as int,
                        entry@,
                    ));
                    assert(self@ =~= add_type(old(self)@, ns_id as int, name@, typ@).0);
                }
                TypeId { ns_id, id: i }
            },
            None => self.push_entry(ns_id, entry),
        }
    }

    /// Resolves a reference to type `name` made from namespace `ns_id` (see the model
    /// `get_type`); unknown names are declared as undefined entries.
    pub fn get_type(&mut self, ns_id: usize, name: &str) -> (r: TypeId)
        requires
            ns_id < old(self)@.len(),
        ensures
            (final(self)@, r) == get_type(old(self)@, ns_id as int, name@),
            keeps_lists(old(self)@, final(self)@),
            extends(old(self)@, final(self)@),
    {
        if let Some(i) = self.find_type(ns_id, name) {
            return TypeId { ns_id, id: i };
        }
        match crate::text::split_qualified_name(name) {
            Some((qualifier, local)) => {
                let q = self.get_namespace(qualifier.as_str());
                match self.find_type(q, local.as_str()) {
                    Some(i) => TypeId { ns_id: q, id: i },
                    None => self.push_entry(q, TypeEntry { name: local, typ: None }),
                }
            },
            None => match self.find_type(INTERNAL_NAMESPACE, name) {
                Some(i) => TypeId { ns_id: INTERNAL_NAMESPACE, id: i },
                None => self.push_entry(ns_id, TypeEntry { name: String::from_str(name), typ: None }),
            },
        }
    }

    /// Appends a global function to namespace `ns_id`.
    pub fn add_function(&mut self, ns_id: usize, f: Function)
        requires
            ns_id < old(self)@.len(),
        ensures
            final(self)@ == add_function(old(self)@, ns_id as int, f@),
            extends(old(self)@, final(self)@),
    {
        self.namespaces[ns_id].functions.push(f);
        proof {
            let ghost n = old(self)@[ns_id as int];
            assert(functions_view(self.namespaces@[ns_id as int].functions@) =~= n.functions.push(f@));
            assert(self@ =~= add_function(old(self)@, ns_id as int, f@));
        }
    }

    /// Appends a constant to namespace `ns_id`.
    pub fn add_constant(&mut self, ns_id: usize, c: Constant)
        requires
            ns_id < old(self)@.len(),
        ensures
            final(self)@ == add_constant(old(self)@, ns_id as int, c@),
            extends(old(self)@, final(self)@),
    {
        self.namespaces[ns_id].constants.push(c);
        proof {
            let ghost n = old(self)@[ns_id as int];
            assert(constants_view(self.namespaces@[ns_id as int].constants@) =~= n.constants.push(c@));
            assert(self@ =~= add_constant(old(self)@, ns_id as int, c@));
        }
    }
}

fn push_id_text(out: &mut String, t: TypeId)
    ensures
        final(out)@ == old(out)@ + id_text(t),
{
    push_decimal(out, t.ns_id);
    out.append(".");
    push_decimal(out, t.id);
    assert(final(out)@ =~= old(out)@ + id_text(t));
}

fn fundamental(name: &str) -> (r: TypeEntry)
    ensures
        r@ == (SpecTypeEntry { name: name@, typ: Some(SpecType::Fundamental) }),
{
    TypeEntry { name: String::from_str(name), typ: Some(Type::Fundamental) }
}

impl Library {
    /// A library that knows only the internal namespace with the fundamental types.
    pub fn new() -> (r: Library)
        ensures
            r@ == initial_library(),
            unique_names(r@),
    {
        let mut types: Vec<TypeEntry> = Vec::new();
        types.push(fundamental("none"));
        types.push(fundamental("gboolean"));
        types.push(fundamental("gchar"));
        types.push(fundamental("guchar"));
        types.push(fundamental("gshort"));
        types.push(fundamental("gushort"));
        types.push(fundamental("gint"));
        types.push(fundamental("guint"));
        types.push(fundamental("glong"));
        types.push(fundamental("gulong"));
        types.push(fundamental("gint8"));
        types.push(fundamental("guint8"));
        types.push(fundamental("gint16"));
        types.push(fundamental("guint16"));
        types.push(fundamental("gint32"));
        types.push(fundamental("guint32"));
        types.push(fundamental("gint64"));
        types.push(fundamental("guint64"));
        types.push(fundamental("gsize"));
        types.push(fundamental("gssize"));
        types.push(fundamental("gfloat"));
        types.push(fundamental("gdouble"));
        types.push(fundamental("gpointer"));
        types.push(fundamental("gconstpointer"));
        types.push(fundamental("utf8"));
        types.push(fundamental("filename"));
        types.push(fundamental("GType"));
        types.push(fundamental("varargs"));
        let internal = Namespace {
            name: String::from_str("*"),
            types,
            constants: Vec::new(),
            functions: Vec::new(),
        };
        let mut namespaces: Vec<Namespace> = Vec::new();
        namespaces.push(internal);
        let lib = Library { namespaces };
        proof {
            let ghost expected = initial_library()[0];
            assert(entries_view(lib.namespaces@[0].types@) =~= expected.types);
            assert(constants_view(Seq::<Constant>::empty()) =~= Seq::empty());
            assert(functions_view(Seq::<Function>::empty()) =~= Seq::empty());
            assert(lib@ =~= initial_library());
        }
        lib
    }
}

impl Type {
    /// Registers the container type that `name` with element types `inner` denotes
    /// (an array, a hash table, a list or a singly linked list) in the internal
    /// namespace and returns its id; `None` if `name` and `inner` denote no container.
    pub fn container(library: &mut Library, name: &str, inner: Vec<TypeId>) -> (r: Option<TypeId>)
        requires
            old(library)@.len() > 0,
        ensures
            match container(old(library)@, name@, inner@) {
                Some((lib, t)) => final(library)@ == lib && r == Some(t),
                None => final(library)@ == old(library)@ && r is None,
            },
            extends(old(library)@, final(library)@),
            keeps_lists(old(library)@, final(library)@),
    {
        let n = inner.len();
        if str_equal(name, "array") && n == 1 {
            let mut s = String::from_str("[#");
            push_id_text(&mut s, inner[0]);
            s.append("]");
            Some(library.add_type(INTERNAL_NAMESPACE, s.as_str(), Type::Array(inner[0])))
        } else if str_equal(name, "GLib.HashTable") && n == 2 {
            let mut s = String::from_str("HashTable(#");
            push_id_text(&mut s, inner[0]);
            s.append(", #");
            push_id_text(&mut s, inner[1]);
            s.append(")");
            Some(
                library.add_type(INTERNAL_NAMESPACE, s.as_str(), Type::HashTable(inner[0], inner[1])),
            )
        } else if str_equal(name, "GLib.List") && n == 1 {
            let mut s = String::from_str("List(#");
            push_id_text(&mut s, inner[0]);
            s.append(")");
            Some(library.add_type(INTERNAL_NAMESPACE, s.as_str(), Type::List(inner[0])))
        } else if str_equal(name, "GLib.SList") && n == 1 {
            let mut s = String::from_str("SList(#");
            push_id_text(&mut s, inner[0]);
            s.append(")");
            Some(library.add_type(INTERNAL_NAMESPACE, s.as_str(), Type::SList(inner[0])))
        } else {
            None
        }
    }
}

} // verus!
