//! Cargo manifests read and edited by the `toml_edit` crate.
//!
//! A manifest keeps the text it was read from; that text is its view. What
//! `toml_edit` makes of the text is named by the uninterpreted functions below
//! and obtained through the private trusted wrappers at the end of this file.

use vstd::prelude::*;

verus! {

#[verifier::external_type_specification]
#[verifier::external_body]
pub struct ExDocumentMut(toml_edit::DocumentMut);

/// What `DocumentMut::from_str` makes of a text: success, or the rendered error.
pub uninterp spec fn toml_parse_outcome(text: Seq<char>) -> Result<(), Seq<char>>;

/// The root `[dependencies]` entry named `name` as `toml_edit` reads it
/// (`get("dependencies")` then `get(name)`): `None` when there is none,
/// `Some(Some(v))` for a plain string `v`, `Some(None)` for anything else.
pub uninterp spec fn toml_dependency_entry(text: Seq<char>, name: Seq<char>) -> Option<Option<Seq<char>>>;

/// What replacing the root `[dependencies]` entry `name` by the string
/// `requirement` makes of a manifest (`get_mut("dependencies")`, `get_mut(name)`,
/// assignment and `to_string`): `None` when there is no dependency table to
/// hold the entry, `Some(None)` when the entry is not a plain string, and
/// `Some(Some(t))` with the edited manifest text `t` otherwise.
pub uninterp spec fn toml_replace_dependency(text: Seq<char>, name: Seq<char>, requirement: Seq<char>) -> Option<
    Option<Seq<char>>,
>;

/// The document `toml_edit` reads from `text` apart from the root
/// `[dependencies]` entry `name`: every other key and value (`[package]`, the
/// other tables, the other entries), taken as values rather than as formatted
/// text. Only whether two of these are equal is ever used.
pub uninterp spec fn toml_document_apart(text: Seq<char>, name: Seq<char>) -> Seq<char>;

/// Whether `a` and `b` read as the same document: they agree on every root
/// dependency entry and on everything apart from it.
pub open spec fn same_document(a: Seq<char>, b: Seq<char>) -> bool {
    forall|k: Seq<char>|
        #![trigger toml_dependency_entry(a, k)]
        #![trigger toml_document_apart(a, k)]
        toml_dependency_entry(a, k) == toml_dependency_entry(b, k) && toml_document_apart(a, k)
            == toml_document_apart(b, k)
}

/// Whether `after` is `before` with the root dependency `name` set to the plain
/// string `requirement`: `after` reads as a document whose entry `name` is that
/// string, every other root dependency entry and everything outside the entry
/// is as it was, and where the entry already was that string the whole
/// document is as it was.
pub open spec fn replaced_entry(before: Seq<char>, name: Seq<char>, requirement: Seq<char>, after: Seq<char>) -> bool {
    &&& toml_parse_outcome(after) == Ok::<(), Seq<char>>(())
    &&& toml_dependency_entry(after, name) == Some(Some(requirement))
    &&& forall|k: Seq<char>|
        k != name ==> #[trigger] toml_dependency_entry(after, k) == toml_dependency_entry(before, k)
    &&& toml_document_apart(after, name) == toml_document_apart(before, name)
    &&& toml_dependency_entry(before, name) == Some(Some(requirement)) ==> same_document(after, before)
}

/// A manifest read by `toml_edit`.
#[derive(Debug)]
pub struct Manifest {
    text: String,
    document: toml_edit::DocumentMut,
}

impl View for Manifest {
    type V = Seq<char>;

    /// The text the manifest was read from.
    closed spec fn view(&self) -> Seq<char> {
        self.text@
    }
}

/// A root dependency declaration as the manifest writes it.
#[derive(Debug)]
pub enum Declaration {
    /// No such entry.
    Absent,
    /// A plain version string such as `serde = "1.0"`.
    PlainString(String),
    /// An inline table, a table or any other value.
    Other,
}

impl View for Declaration {
    type V = Option<Option<Seq<char>>>;

    open spec fn view(&self) -> Option<Option<Seq<char>>> {
        match self {
            Declaration::Absent => None,
            Declaration::PlainString(s) => Some(Some(s@)),
            Declaration::Other => Some(None),
        }
    }
}

/// The outcome of replacing a dependency's requirement.
#[derive(Debug)]
pub enum Replacement {
    /// The manifest has no dependency table to hold the entry.
    NoTable,
    /// The entry is not a plain string.
    NotString,
    /// The edited manifest text.
    Replaced(String),
}

impl View for Replacement {
    type V = Option<Option<Seq<char>>>;

    open spec fn view(&self) -> Option<Option<Seq<char>>> {
        match self {
            Replacement::NoTable => None,
            Replacement::NotString => Some(None),
            Replacement::Replaced(t) => Some(Some(t@)),
        }
    }
}

impl Manifest {
    /// Reads a manifest; the error is `toml_edit`'s rendered error.
    pub fn parse(text: &str) -> (r: Result<Manifest, String>)
        ensures
            match r {
                Ok(m) => toml_parse_outcome(text@) == Ok::<(), Seq<char>>(()) && m@ == text@,
                Err(e) => toml_parse_outcome(text@) == Err::<(), Seq<char>>(e@),
            },
    {
        read_manifest(text)
    }

    /// The root `[dependencies]` entry named `name`.
    pub fn dependency(&self, name: &str) -> (d: Declaration)
        ensures
            d@ == toml_dependency_entry(self@, name@),
    {
        root_dependency(self, name)
    }

    /// Replaces the requirement of the root dependency `name` when it is a
    /// plain string, and renders the edited manifest.
    pub fn replace_dependency(self, name: &str, requirement: &str) -> (r: Replacement)
        ensures
            r@ == toml_replace_dependency(self@, name@, requirement@),
            toml_dependency_entry(self@, name@) matches Some(Some(_)) ==> r is Replaced,
            r matches Replacement::Replaced(t) ==> replaced_entry(self@, name@, requirement@, t@),
    {
        replace_entry(self, name, requirement)
    }
}

/// Calls `str::parse::<toml_edit::DocumentMut>`; the manifest keeps its text,
/// and a failure is rendered with `Display`.
#[verifier::external_body]
fn read_manifest(text: &str) -> (r: Result<Manifest, String>)
    ensures
        match r {
            Ok(m) => toml_parse_outcome(text@) == Ok::<(), Seq<char>>(()) && m@ == text@,
            Err(e) => toml_parse_outcome(text@) == Err::<(), Seq<char>>(e@),
        },
{
    match text.parse::<toml_edit::DocumentMut>() {
        Ok(document) => Ok(Manifest { text: text.to_string(), document }),
        Err(error) => Err(error.to_string()),
    }
}

/// Calls `Table::get("dependencies")` on the document and `Item::get(name)` on
/// the result, telling the found item's variants apart.
#[verifier::external_body]
fn root_dependency(m: &Manifest, name: &str) -> (d: Declaration)
    ensures
        d@ == toml_dependency_entry(m@, name@),
{
    let item = match m.document.get("dependencies") {
        Some(table) => table.get(name),
        None => None,
    };
    match item {
        None | Some(toml_edit::Item::None) => Declaration::Absent,
        Some(toml_edit::Item::Value(toml_edit::Value::String(v))) => Declaration::PlainString(v.value().to_owned()),
        Some(_) => Declaration::Other,
    }
}

/// Calls `get_mut("dependencies")`, `Item::get_mut(name)`, assigns
/// `toml_edit::value(requirement)` to a plain-string entry and renders the
/// document with `to_string`. Claimed besides the name: `get_mut` finds the
/// item that `get` finds, so a plain-string entry is always replaced; and the
/// rendered text is again a document whose entry `name` is the plain string
/// `requirement` and whose other keys and values, inside the dependency table
/// and outside it, are unchanged (the assignment touches only that item, and
/// `toml_edit` renders the untouched items with their original text); so where
/// the entry already held `requirement`, only its formatting can change.
#[verifier::external_body]
fn replace_entry(m: Manifest, name: &str, requirement: &str) -> (r: Replacement)
    ensures
        r@ == toml_replace_dependency(m@, name@, requirement@),
        toml_dependency_entry(m@, name@) matches Some(Some(_)) ==> r is Replaced,
        r matches Replacement::Replaced(t) ==> replaced_entry(m@, name@, requirement@, t@),
        r matches Replacement::Replaced(t) ==> toml_document_apart(t@, name@) == toml_document_apart(m@, name@),
{
    let mut document = m.document;
    let item = match document.get_mut("dependencies") {
        Some(table) => table.get_mut(name),
        None => None,
    };
    match item {
        None => Replacement::NoTable,
        Some(item @ toml_edit::Item::Value(toml_edit::Value::String(_))) => {
            *item = toml_edit::value(requirement.to_string());
            Replacement::Replaced(document.to_string())
        },
        Some(_) => Replacement::NotString,
    }
}

} // verus!
