//! The entry point: a parser over the text of part 6 of the DICOM standard.
use vstd::prelude::*;

use crate::data_element::{DataElement, DataElementView};
use crate::decode::{
    decode_dictionary_section, decode_identifier_section, dictionary_result, dictionary_section,
    identifier_result, identifier_section,
};
use crate::error::{ErrorView, ParseError};
use crate::text::{normalize_name, normalized_name};
use crate::uid::{UidView, UID};
use crate::xml::{document_model, parse_document};

verus! {

/// A parser for the registries defined in the tables of part 6 ("Data
/// Dictionary") of the DICOM standard, given as DocBook XML.
pub struct Parser {
    /// The text of the part 6 XML document.
    part6_content: String,
}

impl View for Parser {
    type V = Seq<char>;

    closed spec fn view(&self) -> Seq<char> {
        self.part6_content@
    }
}

/// What decoding the data-element section labelled `label` of the document
/// `text` gives: why the text has no model, or the decode of its model.
pub open spec fn dictionary_outcome(text: Seq<char>, label: Seq<char>) -> Result<
    Seq<DataElementView>,
    ErrorView,
> {
    match document_model(text) {
        Err(e) => Err(e),
        Ok(root) => dictionary_section(root, label),
    }
}

/// What decoding the identifier section labelled `label` of the document
/// `text` gives.
pub open spec fn identifier_outcome(text: Seq<char>, label: Seq<char>) -> Result<
    Seq<UidView>,
    ErrorView,
> {
    match document_model(text) {
        Err(e) => Err(e),
        Ok(root) => identifier_section(root, label),
    }
}

impl Parser {
    /// A parser over the full `contents` of a part 6 XML document.
    pub fn with_part6_file_contents(contents: String) -> (r: Parser)
        ensures
            r@ == contents@,
    {
        Parser { part6_content: contents }
    }

    /// Parses the document and decodes the data-element section labelled `label`.
    fn parse_data_elements(&self, label: &str) -> (r: Result<Vec<DataElement>, ParseError>)
        ensures
            dictionary_result(r) == dictionary_outcome(self@, label@),
    {
        match parse_document(self.part6_content.as_str()) {
            Ok(root) => {
                let r = decode_dictionary_section(&root, label);
                assert(dictionary_result(r) == dictionary_section(root@, label@));
                r
            },
            Err(e) => Err(e),
        }
    }

    /// Returns all data elements of the "Registry of DICOM Data Elements"
    /// (section "6"), including those without name or keyword, those whose tag
    /// is a range and those without VR.
    pub fn parse_data_element_registry(&self) -> (r: Result<Vec<DataElement>, ParseError>)
        ensures
            dictionary_result(r) == dictionary_outcome(self@, "6"@),
    {
        self.parse_data_elements("6")
    }

    /// Returns all elements of the "Registry of DICOM File Meta Elements"
    /// (section "7").
    pub fn parse_file_meta_element_registry(&self) -> (r: Result<Vec<DataElement>, ParseError>)
        ensures
            dictionary_result(r) == dictionary_outcome(self@, "7"@),
    {
        self.parse_data_elements("7")
    }

    /// Returns all elements of the "Registry of DICOM Directory Structuring
    /// Elements" (section "8").
    pub fn parse_directory_structuring_element_registry(&self) -> (r: Result<
        Vec<DataElement>,
        ParseError,
    >)
        ensures
            dictionary_result(r) == dictionary_outcome(self@, "8"@),
    {
        self.parse_data_elements("8")
    }

    /// Returns all unique identifiers of the "Registry of DICOM Unique
    /// Identifiers (UIDs)" (section "A").
    pub fn parse_unique_identifier_registry(&self) -> (r: Result<Vec<UID>, ParseError>)
        ensures
            identifier_result(r) == identifier_outcome(self@, "A"@),
    {
        match parse_document(self.part6_content.as_str()) {
            Ok(root) => {
                let r = decode_identifier_section(&root, "A");
                assert(identifier_result(r) == identifier_section(root@, "A"@));
                r
            },
            Err(e) => Err(e),
        }
    }

    /// The normalized form of an identifier's full name: cut at the first
    /// colon, then without " (Retired)".
    pub fn normalize_uid_name(full_uid_name: &str) -> (r: String)
        ensures
            r@ == normalized_name(full_uid_name@),
    {
        normalize_name(full_uid_name)
    }
}

} // verus!
