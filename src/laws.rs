//! Properties of the decoders and the normalizer, stated over their
//! specifications and proved.
use vstd::prelude::*;

use crate::data_element::{concrete_views, is_concrete, DataElement, DataElementView};
use crate::decode::{
    cell_text, dictionary_result, dictionary_row, dictionary_rows, dictionary_section, identifier_result,
    identifier_row, identifier_rows, identifier_section, lemma_dictionary_error_persists,
    lemma_identifier_error_persists, section_body, see_note, text_or_empty,
};
use crate::document::ElementView;
use crate::error::{ErrorView, ParseError};
use crate::text::{
    before_first, first_index_of, has_prefix, is_range_tag_text, is_tag_text, normalized_name,
    remove_all, retired_marker,
};
use crate::parser::{dictionary_outcome, identifier_outcome};
use crate::uid::{kind_of, UidView, UID};

verus! {

/// True when `p` occurs in `s` starting at `i`.
pub open spec fn occurs_at(s: Seq<char>, p: Seq<char>, i: int) -> bool {
    0 <= i <= s.len() && has_prefix(s.subrange(i, s.len() as int), p)
}

/// A decoded prefix of rows holds one record per row, each the record of its row.
pub proof fn lemma_dictionary_rows_ok(rows: Seq<ElementView>, n: int)
    requires
        0 <= n <= rows.len(),
        dictionary_rows(rows, n) is Ok,
    ensures
        dictionary_rows(rows, n)->Ok_0.len() == n,
        forall|i: int|
            0 <= i < n ==> dictionary_row(rows[i], i) == Ok::<DataElementView, ErrorView>(
                #[trigger] dictionary_rows(rows, n)->Ok_0[i],
            ),
    decreases n,
{
    if n > 0 {
        lemma_dictionary_rows_ok(rows, n - 1);
    }
}

/// Rows that all decode give a decoded prefix.
pub proof fn lemma_dictionary_rows_all_ok(rows: Seq<ElementView>, n: int)
    requires
        0 <= n <= rows.len(),
        forall|i: int| 0 <= i < n ==> (#[trigger] dictionary_row(rows[i], i)) is Ok,
    ensures
        dictionary_rows(rows, n) is Ok,
    decreases n,
{
    if n > 0 {
        lemma_dictionary_rows_all_ok(rows, n - 1);
        assert(dictionary_row(rows[n - 1], n - 1) is Ok);
    }
}

/// A decoded prefix of identifier rows holds one record per row, each the
/// record of its row.
pub proof fn lemma_identifier_rows_ok(rows: Seq<ElementView>, n: int)
    requires
        0 <= n <= rows.len(),
        identifier_rows(rows, n) is Ok,
    ensures
        identifier_rows(rows, n)->Ok_0.len() == n,
        forall|i: int|
            0 <= i < n ==> identifier_row(rows[i], i) == Ok::<UidView, ErrorView>(
                #[trigger] identifier_rows(rows, n)->Ok_0[i],
            ),
    decreases n,
{
    if n > 0 {
        lemma_identifier_rows_ok(rows, n - 1);
    }
}

/// Identifier rows that all decode give a decoded prefix.
pub proof fn lemma_identifier_rows_all_ok(rows: Seq<ElementView>, n: int)
    requires
        0 <= n <= rows.len(),
        forall|i: int| 0 <= i < n ==> (#[trigger] identifier_row(rows[i], i)) is Ok,
    ensures
        identifier_rows(rows, n) is Ok,
    decreases n,
{
    if n > 0 {
        lemma_identifier_rows_all_ok(rows, n - 1);
        assert(identifier_row(rows[n - 1], n - 1) is Ok);
    }
}

/// Every decoded tag reads "(gggg,eeee)" with hexadecimal digits or `x` in
/// each half, provided the tag column of each row of the section does.
pub proof fn lemma_decoded_tags_are_well_formed(root: ElementView, label: Seq<char>)
    requires
        section_body(root, label) matches Some(body) && forall|i: int|
            0 <= i < body.children.len() && body.children[i].children.len() > 0
                ==> is_tag_text(text_or_empty(cell_text(body.children[i].children[0]))),
    ensures
        dictionary_section(root, label) matches Ok(v) ==> forall|i: int|
            0 <= i < v.len() ==> is_tag_text(#[trigger] v[i].tag),
{
    let body = section_body(root, label)->Some_0;
    let rows = body.children;
    if dictionary_section(root, label) is Ok {
        lemma_dictionary_rows_ok(rows, rows.len() as int);
        let v = dictionary_section(root, label)->Ok_0;
        assert forall|i: int| 0 <= i < v.len() implies is_tag_text(#[trigger] v[i].tag) by {
            assert(dictionary_row(rows[i], i) == Ok::<DataElementView, ErrorView>(v[i]));
        }
    }
}

/// Every element of a concrete view is concrete.
pub proof fn lemma_concrete_views_are_concrete(s: Seq<DataElementView>)
    ensures
        forall|i: int|
            0 <= i < concrete_views(s).len() ==> is_concrete(#[trigger] concrete_views(s)[i]),
    decreases s.len(),
{
    if s.len() > 0 {
        let r = concrete_views(s.drop_last());
        lemma_concrete_views_are_concrete(s.drop_last());
        if is_concrete(s.last()) {
            assert forall|i: int| 0 <= i < r.push(s.last()).len() implies is_concrete(
                #[trigger] r.push(s.last())[i],
            ) by {
                if i < r.len() {
                    assert(r.push(s.last())[i] == r[i]);
                }
            }
        }
    }
}

/// An element whose tag has `x` in either half never appears in the concrete
/// view, whatever its keyword.
pub proof fn lemma_range_entries_are_never_concrete(s: Seq<DataElementView>)
    ensures
        forall|d: DataElementView|
            is_range_tag_text(d.tag) ==> !(#[trigger] concrete_views(s).contains(d)),
{
    lemma_concrete_views_are_concrete(s);
}

/// Past the last `c`, the search for `c` runs to the end.
proof fn lemma_no_char_from(s: Seq<char>, c: char, i: int)
    requires
        0 <= i,
        forall|j: int| i <= j < s.len() ==> s[j] != c,
    ensures
        first_index_of(s, c, i) == s.len(),
    decreases s.len() - i,
{
    if i < s.len() {
        lemma_no_char_from(s, c, i + 1);
    }
}

/// Removing a text that does not occur leaves `s` as it is.
proof fn lemma_remove_absent(s: Seq<char>, p: Seq<char>)
    requires
        forall|i: int| !occurs_at(s, p, i),
    ensures
        remove_all(s, p) == s,
    decreases s.len(),
{
    if s.len() > 0 && p.len() > 0 {
        assert(s.subrange(0, s.len() as int) =~= s);
        assert(!occurs_at(s, p, 0));
        let t = s.drop_first();
        assert forall|i: int| !occurs_at(t, p, i) by {
            if 0 <= i <= t.len() {
                assert(t.subrange(i, t.len() as int) =~= s.subrange(i + 1, s.len() as int));
                assert(!occurs_at(s, p, i + 1));
            }
        }
        lemma_remove_absent(t, p);
        assert(seq![s[0]] + t =~= s);
    }
}

/// A name without a colon and without " (Retired)" is already normalized:
/// normalizing it returns it unchanged.
pub proof fn lemma_normalization_keeps_normalized_names(name: Seq<char>)
    requires
        !name.contains(':'),
        forall|i: int| !occurs_at(name, retired_marker(), i),
    ensures
        normalized_name(name) == name,
{
    assert forall|j: int| 0 <= j < name.len() implies name[j] != ':' by {
        if name[j] == ':' {
            assert(name.contains(':'));
        }
    }
    lemma_no_char_from(name, ':', 0);
    assert(before_first(name, ':') =~= name);
    lemma_remove_absent(name, retired_marker());
}

/// A data-element row whose VR column reads "See Note 2" has an empty VR.
pub proof fn lemma_see_note_gives_empty_vr(tr: ElementView, row: int)
    requires
        tr.children.len() == 5 || tr.children.len() == 6,
        cell_text(tr.children[3]) == Some("See Note 2"@),
    ensures
        dictionary_row(tr, row) matches Ok(d) && d.vr.len() == 0,
{
    reveal_strlit("See Note 2");
    reveal_strlit("See Note");
    assert("See Note 2"@.subrange(0, see_note().len() as int) =~= see_note());
}

/// An identifier row whose category names no kind makes the decode of its
/// whole section fail: no list is returned. Where the rows before it decode,
/// the failure is the unknown category of that row.
pub proof fn lemma_unknown_category_fails_section(root: ElementView, label: Seq<char>, i: int)
    requires
        section_body(root, label) matches Some(body) && 0 <= i < body.children.len() && {
            let cells = body.children[i].children;
            &&& (cells.len() == 3 || cells.len() == 4)
            &&& cell_text(cells[2]) matches Some(c) && kind_of(c) is None
        },
    ensures
        identifier_section(root, label) is Err,
        (forall|j: int| 0 <= j < i ==> (#[trigger] identifier_row(
            section_body(root, label)->Some_0.children[j],
            j,
        )) is Ok) ==> identifier_section(root, label) == Err::<Seq<UidView>, ErrorView>(
            ErrorView::UnknownCategory {
                row: i,
                text: cell_text(section_body(root, label)->Some_0.children[i].children[2])->Some_0,
            },
        ),
{
    let rows = section_body(root, label)->Some_0.children;
    let n = rows.len() as int;
    assert(identifier_rows(rows, i + 1) is Err);
    lemma_identifier_error_persists(rows, i + 1, n);
    if forall|j: int| 0 <= j < i ==> (#[trigger] identifier_row(rows[j], j)) is Ok {
        lemma_identifier_rows_all_ok(rows, i);
    }
}

/// A label that no section carries makes both decoders fail with
/// `StructuralNotFound` naming it, never with an empty list.
pub proof fn lemma_missing_section_is_not_found(root: ElementView, label: Seq<char>)
    requires
        section_body(root, label) is None,
    ensures
        dictionary_section(root, label) == Err::<Seq<DataElementView>, ErrorView>(
            ErrorView::StructuralNotFound { label },
        ),
        identifier_section(root, label) == Err::<Seq<UidView>, ErrorView>(
            ErrorView::StructuralNotFound { label },
        ),
{
}

/// A section whose rows all decode gives exactly one record per row, in
/// document order.
pub proof fn lemma_good_dictionary_section(root: ElementView, label: Seq<char>)
    requires
        section_body(root, label) matches Some(body) && forall|i: int|
            0 <= i < body.children.len() ==> (#[trigger] dictionary_row(body.children[i], i)) is Ok,
    ensures
        dictionary_section(root, label) matches Ok(v) && {
            let rows = section_body(root, label)->Some_0.children;
            &&& v.len() == rows.len()
            &&& forall|i: int|
                0 <= i < v.len() ==> Ok::<DataElementView, ErrorView>(#[trigger] v[i])
                    == dictionary_row(rows[i], i)
        },
{
    let rows = section_body(root, label)->Some_0.children;
    lemma_dictionary_rows_all_ok(rows, rows.len() as int);
    lemma_dictionary_rows_ok(rows, rows.len() as int);
}

/// An identifier section whose rows all decode gives exactly one record per
/// row, in document order.
pub proof fn lemma_good_identifier_section(root: ElementView, label: Seq<char>)
    requires
        section_body(root, label) matches Some(body) && forall|i: int|
            0 <= i < body.children.len() ==> (#[trigger] identifier_row(body.children[i], i)) is Ok,
    ensures
        identifier_section(root, label) matches Ok(v) && {
            let rows = section_body(root, label)->Some_0.children;
            &&& v.len() == rows.len()
            &&& forall|i: int|
                0 <= i < v.len() ==> Ok::<UidView, ErrorView>(#[trigger] v[i]) == identifier_row(
                    rows[i],
                    i,
                )
        },
{
    let rows = section_body(root, label)->Some_0.children;
    lemma_identifier_rows_all_ok(rows, rows.len() as int);
    lemma_identifier_rows_ok(rows, rows.len() as int);
}

/// Decoding the same data-element section of the same document text twice
/// gives the same outcome: the same records, field by field, or the same error.
pub proof fn lemma_dictionary_decoding_is_deterministic(
    text: Seq<char>,
    label: Seq<char>,
    first: Result<Vec<DataElement>, ParseError>,
    second: Result<Vec<DataElement>, ParseError>,
)
    requires
        dictionary_result(first) == dictionary_outcome(text, label),
        dictionary_result(second) == dictionary_outcome(text, label),
    ensures
        dictionary_result(first) == dictionary_result(second),
{
}

/// Decoding the same identifier section of the same document text twice
/// gives the same outcome.
pub proof fn lemma_identifier_decoding_is_deterministic(
    text: Seq<char>,
    label: Seq<char>,
    first: Result<Vec<UID>, ParseError>,
    second: Result<Vec<UID>, ParseError>,
)
    requires
        identifier_result(first) == identifier_outcome(text, label),
        identifier_result(second) == identifier_outcome(text, label),
    ensures
        identifier_result(first) == identifier_result(second),
{
}

} // verus!
