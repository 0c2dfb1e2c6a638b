//! Locating a registry section in the document and decoding its rows.
use vstd::prelude::*;

use crate::data_element::{element_views, DataElement, DataElementView};
use crate::document::{first_named, lemma_element_view, ElementView, XmlElement};
use crate::error::{ErrorView, ParseError};
use crate::text::{
    has_prefix, normalize_name, normalized_name, starts_with, str_eq, strip_separators,
    without_char, SEPARATOR,
};
use crate::uid::{kind_of, Kind, UidView, UID};

verus! {

// ---------------------------------------------------------------------------
// Section locator

/// The table body of the first element of `s`, at or after `i`, that is a
/// table holding a table body.
pub open spec fn body_in_tables_from(s: Seq<ElementView>, i: int) -> Option<ElementView>
    decreases s.len() - i,
{
    if i >= s.len() {
        None
    } else if s[i].name == "table"@ && first_named(s[i].children, "tbody"@) is Some {
        first_named(s[i].children, "tbody"@)
    } else {
        body_in_tables_from(s, i + 1)
    }
}

/// The table body of a chapter: that of its first table that has one.
pub open spec fn chapter_body(chapter: ElementView) -> Option<ElementView> {
    body_in_tables_from(chapter.children, 0)
}

/// The table body of the first chapter of `s`, at or after `i`, labelled
/// `label` and holding a table body.
pub open spec fn section_body_from(s: Seq<ElementView>, label: Seq<char>, i: int) -> Option<
    ElementView,
>
    decreases s.len() - i,
{
    if i >= s.len() {
        None
    } else if s[i].name == "chapter"@ && s[i].attributes.contains_key("label"@) && s[i].attributes["label"@] == label
        && chapter_body(s[i]) is Some {
        chapter_body(s[i])
    } else {
        section_body_from(s, label, i + 1)
    }
}

/// The row container of the section labelled `label`: the first table body
/// of a table of a chapter with that label, in document order.
pub open spec fn section_body(root: ElementView, label: Seq<char>) -> Option<ElementView> {
    section_body_from(root.children, label, 0)
}

/// The table body of `chapter`: that of its first table that has one.
fn find_chapter_body(chapter: &XmlElement) -> (r: Option<&XmlElement>)
    ensures
        match r {
            Some(b) => chapter_body(chapter@) == Some(b@),
            None => chapter_body(chapter@) is None,
        },
{
    proof {
        lemma_element_view(*chapter);
    }
    let n = chapter.children.len();
    let mut i: usize = 0;
    while i < n
        invariant
            n == chapter.children@.len(),
            n == chapter@.children.len(),
            i <= n,
            chapter_body(chapter@) == body_in_tables_from(chapter@.children, i as int),
        decreases n - i,
    {
        let table = &chapter.children[i];
        proof {
            lemma_element_view(*chapter);
            lemma_element_view(*table);
        }
        if str_eq(table.name.as_str(), "table") {
            if let Some(body) = table.first_child_named("tbody") {
                return Some(body);
            }
        }
        i += 1;
    }
    None
}

/// Finds the row container of the section labelled `label`: the first table
/// body of a table of a chapter with that label. Later matches are not visited.
pub fn find_chapter_table_body<'a>(root: &'a XmlElement, label: &str) -> (r: Option<
    &'a XmlElement,
>)
    ensures
        match r {
            Some(b) => section_body(root@, label@) == Some(b@),
            None => section_body(root@, label@) is None,
        },
{
    proof {
        lemma_element_view(*root);
    }
    let n = root.children.len();
    let mut i: usize = 0;
    while i < n
        invariant
            n == root.children@.len(),
            n == root@.children.len(),
            i <= n,
            section_body(root@, label@) == section_body_from(root@.children, label@, i as int),
        decreases n - i,
    {
        let chapter = &root.children[i];
        proof {
            lemma_element_view(*root);
        }
        if str_eq(chapter.name.as_str(), "chapter") {
            let labelled = match chapter.attribute("label") {
                Some(v) => str_eq(v.as_str(), label),
                None => false,
            };
            if labelled {
                if let Some(body) = find_chapter_body(chapter) {
                    return Some(body);
                }
            }
        }
        i += 1;
    }
    None
}

// ---------------------------------------------------------------------------
// Cells

/// The text of a table cell: that of its first paragraph, or of the
/// emphasis that the paragraph opens with.
pub open spec fn cell_text(td: ElementView) -> Option<Seq<char>> {
    match first_named(td.children, "para"@) {
        None => None,
        Some(para) => {
            let holder = if para.children.len() > 0 && para.children[0].name == "emphasis"@ {
                para.children[0]
            } else {
                para
            };
            holder.text
        },
    }
}

/// A missing text read as the empty text.
pub open spec fn text_or_empty(t: Option<Seq<char>>) -> Seq<char> {
    match t {
        Some(s) => s,
        None => Seq::empty(),
    }
}

/// The text of a table cell, if it has one.
pub fn cell_text_of(td: &XmlElement) -> (r: Option<&String>)
    ensures
        match r {
            Some(t) => cell_text(td@) == Some(t@),
            None => cell_text(td@) is None,
        },
{
    match td.first_child_named("para") {
        None => None,
        Some(para) => {
            proof {
                lemma_element_view(*para);
            }
            let holder = if para.children.len() > 0 && str_eq(
                para.children[0].name.as_str(),
                "emphasis",
            ) {
                &para.children[0]
            } else {
                para
            };
            match &holder.text {
                Some(t) => Some(t),
                None => None,
            }
        },
    }
}

/// The text of a table cell, or the empty text where it has none.
fn cell_text_or_empty(td: &XmlElement) -> (r: String)
    ensures
        r@ == text_or_empty(cell_text(td@)),
{
    match cell_text_of(td) {
        Some(t) => t.clone(),
        None => String::new(),
    }
}

// ---------------------------------------------------------------------------
// Data-element rows

/// The footnote reference that stands in the VR column of elements without a VR.
pub open spec fn see_note() -> Seq<char> {
    "See Note"@
}

/// The record of one data-element row, the row being the `row`-th of its
/// table. A row has five or six columns: tag, name, keyword, VR, VM and an
/// optional comment. A column without text gives an empty field, but for the
/// comment, which is then absent; a VR that refers to a note gives an empty VR.
pub open spec fn dictionary_row(tr: ElementView, row: int) -> Result<DataElementView, ErrorView> {
    let cells = tr.children;
    if cells.len() != 5 && cells.len() != 6 {
        Err(ErrorView::RowShapeError { row, columns: cells.len() as int })
    } else {
        let vr = text_or_empty(cell_text(cells[3]));
        Ok(
            DataElementView {
                tag: text_or_empty(cell_text(cells[0])),
                name: text_or_empty(cell_text(cells[1])),
                keyword: text_or_empty(cell_text(cells[2])),
                vr: if has_prefix(vr, see_note()) {
                    Seq::empty()
                } else {
                    vr
                },
                vm: text_or_empty(cell_text(cells[4])),
                comment: if cells.len() == 6 {
                    cell_text(cells[5])
                } else {
                    None
                },
            },
        )
    }
}

/// The records of the first `n` rows, or the error of the first of them that
/// cannot be decoded.
pub open spec fn dictionary_rows(rows: Seq<ElementView>, n: int) -> Result<
    Seq<DataElementView>,
    ErrorView,
>
    decreases n,
{
    if n <= 0 {
        Ok(Seq::empty())
    } else {
        match dictionary_rows(rows, n - 1) {
            Err(e) => Err(e),
            Ok(p) => match dictionary_row(rows[n - 1], n - 1) {
                Err(e) => Err(e),
                Ok(d) => Ok(p.push(d)),
            },
        }
    }
}

/// The records of the data-element section labelled `label`.
pub open spec fn dictionary_section(root: ElementView, label: Seq<char>) -> Result<
    Seq<DataElementView>,
    ErrorView,
> {
    match section_body(root, label) {
        None => Err(ErrorView::StructuralNotFound { label }),
        Some(body) => dictionary_rows(body.children, body.children.len() as int),
    }
}

/// The value of a data-element decode result.
pub open spec fn dictionary_result(r: Result<Vec<DataElement>, ParseError>) -> Result<
    Seq<DataElementView>,
    ErrorView,
> {
    match r {
        Ok(v) => Ok(element_views(v@)),
        Err(e) => Err(e@),
    }
}

/// Once a row fails, every longer prefix fails with its error.
pub proof fn lemma_dictionary_error_persists(rows: Seq<ElementView>, k: int, n: int)
    requires
        k <= n,
        dictionary_rows(rows, k) is Err,
    ensures
        dictionary_rows(rows, n) == dictionary_rows(rows, k),
    decreases n - k,
{
    if k < n {
        lemma_dictionary_error_persists(rows, k, n - 1);
    }
}

/// Decodes one data-element row, the `row`-th of its table.
fn decode_dictionary_row(tr: &XmlElement, row: usize) -> (r: Result<DataElement, ParseError>)
    ensures
        match r {
            Ok(d) => dictionary_row(tr@, row as int) == Ok::<DataElementView, ErrorView>(d@),
            Err(e) => dictionary_row(tr@, row as int) == Err::<DataElementView, ErrorView>(e@),
        },
{
    proof {
        lemma_element_view(*tr);
    }
    let cells = &tr.children;
    let columns = cells.len();
    if columns != 5 && columns != 6 {
        return Err(ParseError::RowShapeError { row, columns });
    }
    let tag = cell_text_or_empty(&cells[0]);
    let name = cell_text_or_empty(&cells[1]);
    let keyword = cell_text_or_empty(&cells[2]);
    let vr_text = cell_text_or_empty(&cells[3]);
    let vr = if starts_with(vr_text.as_str(), "See Note") {
        String::new()
    } else {
        vr_text
    };
    let vm = cell_text_or_empty(&cells[4]);
    let comment = if columns == 6 {
        match cell_text_of(&cells[5]) {
            Some(t) => Some(t.clone()),
            None => None,
        }
    } else {
        None
    };
    Ok(DataElement { tag, name, keyword, vr, vm, comment })
}

/// Decodes every row of a data-element table body, in document order.
pub fn decode_dictionary_rows(body: &XmlElement) -> (r: Result<Vec<DataElement>, ParseError>)
    ensures
        dictionary_result(r) == dictionary_rows(body@.children, body@.children.len() as int),
{
    proof {
        lemma_element_view(*body);
    }
    let rows = &body.children;
    let n = rows.len();
    let mut out: Vec<DataElement> = Vec::new();
    assert(element_views(out@) =~= Seq::empty());
    let mut i: usize = 0;
    while i < n
        invariant
            rows@ == body.children@,
            n == body@.children.len(),
            n == rows@.len(),
            i <= n,
            dictionary_rows(body@.children, i as int) == Ok::<Seq<DataElementView>, ErrorView>(
                element_views(out@),
            ),
        decreases n - i,
    {
        proof {
            lemma_element_view(*body);
        }
        match decode_dictionary_row(&rows[i], i) {
            Ok(d) => {
                let ghost before = out@;
                out.push(d);
                assert(element_views(out@) =~= element_views(before).push(d@));
            },
            Err(e) => {
                assert(dictionary_rows(body@.children, i + 1) == Err::<Seq<DataElementView>, ErrorView>(e@));
                proof {
                    lemma_dictionary_error_persists(body@.children, i + 1, n as int);
                }
                return Err(e);
            },
        }
        i += 1;
    }
    Ok(out)
}

/// Decodes the data-element section labelled `label`: one record per row,
/// in document order, or the first failure.
pub fn decode_dictionary_section(root: &XmlElement, label: &str) -> (r: Result<
    Vec<DataElement>,
    ParseError,
>)
    ensures
        dictionary_result(r) == dictionary_section(root@, label@),
{
    match find_chapter_table_body(root, label) {
        Some(body) => decode_dictionary_rows(body),
        None => Err(ParseError::StructuralNotFound { label: String::from_str(label) }),
    }
}

// ---------------------------------------------------------------------------
// Identifier rows

/// The record of one identifier row, the row being the `row`-th of its table.
/// A row has three or four columns: value, full name, category and an ignored
/// reference to a part of the standard. A value or name without text is read
/// as empty; the category must have text and name a kind.
pub open spec fn identifier_row(tr: ElementView, row: int) -> Result<UidView, ErrorView> {
    let cells = tr.children;
    if cells.len() != 3 && cells.len() != 4 {
        Err(ErrorView::RowShapeError { row, columns: cells.len() as int })
    } else {
        match cell_text(cells[2]) {
            None => Err(ErrorView::MissingRequiredText { row, column: 2 }),
            Some(category) => match kind_of(category) {
                None => Err(ErrorView::UnknownCategory { row, text: category }),
                Some(kind) => {
                    let full = text_or_empty(cell_text(cells[1]));
                    Ok(
                        UidView {
                            value: without_char(text_or_empty(cell_text(cells[0])), SEPARATOR),
                            full_name: full,
                            normalized_name: normalized_name(full),
                            kind,
                        },
                    )
                },
            },
        }
    }
}

/// The records of the first `n` identifier rows, or the error of the first
/// of them that cannot be decoded.
pub open spec fn identifier_rows(rows: Seq<ElementView>, n: int) -> Result<Seq<UidView>, ErrorView>
    decreases n,
{
    if n <= 0 {
        Ok(Seq::empty())
    } else {
        match identifier_rows(rows, n - 1) {
            Err(e) => Err(e),
            Ok(p) => match identifier_row(rows[n - 1], n - 1) {
                Err(e) => Err(e),
                Ok(u) => Ok(p.push(u)),
            },
        }
    }
}

/// The records of the identifier section labelled `label`.
pub open spec fn identifier_section(root: ElementView, label: Seq<char>) -> Result<
    Seq<UidView>,
    ErrorView,
> {
    match section_body(root, label) {
        None => Err(ErrorView::StructuralNotFound { label }),
        Some(body) => identifier_rows(body.children, body.children.len() as int),
    }
}

/// The views of a sequence of identifiers.
pub open spec fn uid_views(s: Seq<UID>) -> Seq<UidView> {
    s.map_values(|u: UID| u@)
}

/// The value of an identifier decode result.
pub open spec fn identifier_result(r: Result<Vec<UID>, ParseError>) -> Result<
    Seq<UidView>,
    ErrorView,
> {
    match r {
        Ok(v) => Ok(uid_views(v@)),
        Err(e) => Err(e@),
    }
}

/// Once an identifier row fails, every longer prefix fails with its error.
pub proof fn lemma_identifier_error_persists(rows: Seq<ElementView>, k: int, n: int)
    requires
        k <= n,
        identifier_rows(rows, k) is Err,
    ensures
        identifier_rows(rows, n) == identifier_rows(rows, k),
    decreases n - k,
{
    if k < n {
        lemma_identifier_error_persists(rows, k, n - 1);
    }
}

/// Decodes one identifier row, the `row`-th of its table.
fn decode_identifier_row(tr: &XmlElement, row: usize) -> (r: Result<UID, ParseError>)
    ensures
        match r {
            Ok(u) => identifier_row(tr@, row as int) == Ok::<UidView, ErrorView>(u@),
            Err(e) => identifier_row(tr@, row as int) == Err::<UidView, ErrorView>(e@),
        },
{
    proof {
        lemma_element_view(*tr);
    }
    let cells = &tr.children;
    let columns = cells.len();
    if columns != 3 && columns != 4 {
        return Err(ParseError::RowShapeError { row, columns });
    }
    let category = match cell_text_of(&cells[2]) {
        Some(t) => t,
        None => {
            return Err(ParseError::MissingRequiredText { row, column: 2 });
        },
    };
    let kind = match Kind::from_category(category.as_str()) {
        Some(k) => k,
        None => {
            return Err(ParseError::UnknownCategory { row, text: category.clone() });
        },
    };
    let value = strip_separators(cell_text_or_empty(&cells[0]).as_str());
    let full_name = cell_text_or_empty(&cells[1]);
    let normalized_name = normalize_name(full_name.as_str());
    Ok(UID { value, full_name, normalized_name, kind })
}

/// Decodes every row of an identifier table body, in document order.
pub fn decode_identifier_rows(body: &XmlElement) -> (r: Result<Vec<UID>, ParseError>)
    ensures
        identifier_result(r) == identifier_rows(body@.children, body@.children.len() as int),
{
    proof {
        lemma_element_view(*body);
    }
    let rows = &body.children;
    let n = rows.len();
    let mut out: Vec<UID> = Vec::new();
    assert(uid_views(out@) =~= Seq::empty());
    let mut i: usize = 0;
    while i < n
        invariant
            rows@ == body.children@,
            n == body@.children.len(),
            n == rows@.len(),
            i <= n,
            identifier_rows(body@.children, i as int) == Ok::<Seq<UidView>, ErrorView>(uid_views(out@)),
        decreases n - i,
    {
        proof {
            lemma_element_view(*body);
        }
        match decode_identifier_row(&rows[i], i) {
            Ok(u) => {
                let ghost before = out@;
                out.push(u);
                assert(uid_views(out@) =~= uid_views(before).push(u@));
            },
            Err(e) => {
                assert(identifier_rows(body@.children, i + 1) == Err::<Seq<UidView>, ErrorView>(e@));
                proof {
                    lemma_identifier_error_persists(body@.children, i + 1, n as int);
                }
                return Err(e);
            },
        }
        i += 1;
    }
    Ok(out)
}

/// Decodes the identifier section labelled `label`: one record per row, in
/// document order, or the first failure.
pub fn decode_identifier_section(root: &XmlElement, label: &str) -> (r: Result<
    Vec<UID>,
    ParseError,
>)
    ensures
        identifier_result(r) == identifier_section(root@, label@),
{
    match find_chapter_table_body(root, label) {
        Some(body) => decode_identifier_rows(body),
        None => Err(ParseError::StructuralNotFound { label: String::from_str(label) }),
    }
}

} // verus!
