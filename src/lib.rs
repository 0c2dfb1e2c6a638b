//! Extraction of the registries of DICOM part 6 ("Data Dictionary"): data
//! elements, file meta elements, directory structuring elements and unique
//! identifiers, decoded from the standard's DocBook XML rendering.
pub mod data_element;
pub mod decode;
pub mod document;
pub mod error;
pub mod laws;
pub mod markup;
pub mod parser;
pub mod text;
pub mod uid;
pub mod xml;

pub use data_element::{concrete_elements, DataElement};
pub use decode::{decode_dictionary_section, decode_identifier_section, find_chapter_table_body};
pub use document::XmlElement;
pub use markup::{within_nesting_limit, MAX_NESTING};
pub use error::ParseError;
pub use parser::Parser;
pub use text::{fold_keyword, is_range_tag, strip_separators};
pub use uid::{Kind, UID};
pub use xml::parse_document;
