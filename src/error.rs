//! Why a registry could not be decoded.
use vstd::prelude::*;

verus! {

/// A failure of a decode call. Each one aborts the whole call: no partial
/// result is ever returned.
#[derive(Clone, Debug, PartialEq, Eq)]
pub enum ParseError {
    /// The text is not well-formed XML; the parser's message is kept.
    MalformedDocument(String),
    /// The text nests elements deeper than the parser may go, or holds a
    /// declaration that is not a comment or a CDATA section; it is not parsed.
    NestingTooDeep,
    /// No section carries the requested label, or none of those that do holds
    /// a table body.
    StructuralNotFound { label: String },
    /// A row has a number of columns that its table does not allow.
    RowShapeError { row: usize, columns: usize },
    /// A column that the record cannot do without has no text.
    MissingRequiredText { row: usize, column: usize },
    /// An identifier row names a category outside the closed set of kinds.
    UnknownCategory { row: usize, text: String },
}

/// The mathematical value of a [`ParseError`]; the parser's message is left out.
pub enum ErrorView {
    MalformedDocument,
    NestingTooDeep,
    StructuralNotFound { label: Seq<char> },
    RowShapeError { row: int, columns: int },
    MissingRequiredText { row: int, column: int },
    UnknownCategory { row: int, text: Seq<char> },
}

impl View for ParseError {
    type V = ErrorView;

    open spec fn view(&self) -> ErrorView {
        match self {
            ParseError::MalformedDocument(_) => ErrorView::MalformedDocument,
            ParseError::NestingTooDeep => ErrorView::NestingTooDeep,
            ParseError::StructuralNotFound { label } => ErrorView::StructuralNotFound {
                label: label@,
            },
            ParseError::RowShapeError { row, columns } => ErrorView::RowShapeError {
                row: *row as int,
                columns: *columns as int,
            },
            ParseError::MissingRequiredText { row, column } => ErrorView::MissingRequiredText {
                row: *row as int,
                column: *column as int,
            },
            ParseError::UnknownCategory { row, text } => ErrorView::UnknownCategory {
                row: *row as int,
                text: text@,
            },
        }
    }
}

} // verus!
