//! The INI reader: documents, their sections and their properties.
//!
//! The reader itself is not verified. This module says what the library
//! relies on: a document is a sequence of sections in the order in which they
//! were written, the unnamed general section first; a section is a sequence
//! of key-value pairs in the order in which they were written; a lookup
//! yields the first match.

use vstd::prelude::*;

verus! {

/// `ini::Ini`, a document. Its inside is not looked into; what it holds is
/// [`ini_sections`].
#[verifier::external_type_specification]
#[verifier::external_body]
pub struct ExIni(ini::Ini);

/// `ini::Properties`, a section. Its inside is not looked into; what it
/// holds is [`property_entries`].
#[verifier::external_type_specification]
#[verifier::external_body]
pub struct ExProperties(ini::Properties);

/// The key-value pairs of a section.
pub type Entries = Seq<(Seq<char>, Seq<char>)>;

/// The sections of a document: each with its name (`None` for the general
/// section) and its key-value pairs.
pub type Sections = Seq<(Option<Seq<char>>, Entries)>;

/// The key-value pairs that a section holds, in the order of insertion.
pub uninterp spec fn property_entries(properties: ini::Properties) -> Entries;

/// The sections that a document holds, in the order of insertion.
pub uninterp spec fn ini_sections(document: ini::Ini) -> Sections;

/// What the reader makes of a text: the sections of the document, or the
/// description of the place where it gave up.
pub uninterp spec fn ini_reading(text: Seq<char>) -> Result<Sections, Seq<char>>;

/// The value of the first pair of `entries` whose key is `key`.
pub open spec fn first_value(entries: Entries, key: Seq<char>) -> Option<Seq<char>>
    decreases entries.len(),
{
    if entries.len() == 0 {
        None
    } else if entries[0].0 == key {
        Some(entries[0].1)
    } else {
        first_value(entries.drop_first(), key)
    }
}

/// The pairs of the first of `sections` that is named `name`.
pub open spec fn first_section(sections: Sections, name: Seq<char>) -> Option<Entries>
    decreases sections.len(),
{
    if sections.len() == 0 {
        None
    } else if sections[0].0 == Some(name) {
        Some(sections[0].1)
    } else {
        first_section(sections.drop_first(), name)
    }
}

/// The name of a section as a mathematical value.
pub open spec fn name_view(name: Option<String>) -> Option<Seq<char>> {
    match name {
        Some(n) => Some(n@),
        None => None,
    }
}

/// `Ini::load_from_str`: reads a document from text. The description of a
/// failure is the one that the reader's error displays.
#[verifier::external_body]
pub(crate) fn load_from_str(text: &str) -> (r: Result<ini::Ini, String>)
    ensures
        match r {
            Ok(document) => ini_reading(text@) == Ok::<Sections, Seq<char>>(ini_sections(document)),
            Err(reason) => ini_reading(text@) == Err::<Sections, Seq<char>>(reason@),
        },
{
    match ini::Ini::load_from_str(text) {
        Ok(document) => Ok(document),
        Err(e) => Err(format!("{}", e)),
    }
}

/// `Ini::section` with a name: the first section of that name, by order of
/// insertion, or `None` where the document has no such section.
#[verifier::external_body]
pub(crate) fn section<'a>(document: &'a ini::Ini, name: &str) -> (r: Option<&'a ini::Properties>)
    ensures
        match r {
            Some(properties) => first_section(ini_sections(*document), name@) == Some(
                property_entries(*properties),
            ),
            None => first_section(ini_sections(*document), name@) is None,
        },
{
    document.section(Some(name))
}

/// `Ini::iter`: all sections in the order of insertion, each with its name.
#[verifier::external_body]
pub(crate) fn sections<'a>(document: &'a ini::Ini) -> (r: Vec<(Option<String>, &'a ini::Properties)>)
    ensures
        r@.len() == ini_sections(*document).len(),
        forall|i: int|
            0 <= i < r@.len() ==> (name_view((#[trigger] r@[i]).0), property_entries(*r@[i].1))
                == ini_sections(*document)[i],
{
    document.iter().map(|(name, properties)| (name.map(String::from), properties)).collect()
}

/// `Properties::get`: the first value, by order of insertion, stored under
/// the key, or `None` where the section has no such key.
#[verifier::external_body]
pub(crate) fn get<'a>(properties: &'a ini::Properties, key: &str) -> (r: Option<&'a str>)
    ensures
        match r {
            Some(value) => first_value(property_entries(*properties), key@) == Some(value@),
            None => first_value(property_entries(*properties), key@) is None,
        },
{
    properties.get(key)
}

} // verus!
