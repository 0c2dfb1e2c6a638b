use dicom_dictionary_parser::{
    concrete_elements, decode_dictionary_section, decode_identifier_section,
    find_chapter_table_body, fold_keyword, is_range_tag, parse_document, strip_separators,
    within_nesting_limit, DataElement, Kind, ParseError, Parser, XmlElement, MAX_NESTING, UID,
};

fn element(name: &str, children: Vec<XmlElement>) -> XmlElement {
    XmlElement {
        name: name.to_string(),
        attributes: Vec::new(),
        children,
        text: None,
    }
}

fn chapter(label: &str, children: Vec<XmlElement>) -> XmlElement {
    let mut e = element("chapter", children);
    e.attributes.push(("label".to_string(), label.to_string()));
    e
}

fn td(text: Option<&str>) -> XmlElement {
    let mut para = element("para", Vec::new());
    para.text = text.map(|t| t.to_string());
    element("td", vec![para])
}

fn tr(cells: &[Option<&str>]) -> XmlElement {
    element("tr", cells.iter().map(|c| td(*c)).collect())
}

fn document(label: &str, rows: Vec<XmlElement>) -> XmlElement {
    let body = element("tbody", rows);
    let table = element("table", vec![element("caption", Vec::new()), body]);
    element("book", vec![chapter(label, vec![element("title", Vec::new()), table])])
}

fn uid_document(rows: &str) -> String {
    format!(
        "<book><chapter label=\"A\"><table><tbody>{}</tbody></table></chapter></book>",
        rows
    )
}

#[test]
fn normalization_cuts_at_colon() {
    assert_eq!(
        Parser::normalize_uid_name("Explicit VR Little Endian: Default Transfer Syntax for DICOM"),
        "Explicit VR Little Endian"
    );
}

#[test]
fn normalization_removes_retired_marker() {
    assert_eq!(
        Parser::normalize_uid_name("Explicit VR Big Endian (Retired)"),
        "Explicit VR Big Endian"
    );
}

#[test]
fn normalization_keeps_normalized_names() {
    let name = "JPEG Lossless, Non-Hierarchical (Process 14)";
    let once = Parser::normalize_uid_name(name);
    assert_eq!(once, name);
    assert_eq!(Parser::normalize_uid_name(&once), once);
}

#[test]
fn normalization_never_sees_retired_after_colon() {
    assert_eq!(Parser::normalize_uid_name("A: B (Retired)"), "A");
    assert_eq!(Parser::normalize_uid_name("A (Retired) B (Retired)"), "A B");
    assert_eq!(Parser::normalize_uid_name(""), "");
}

#[test]
fn separators_are_stripped() {
    assert_eq!(strip_separators("1.2.\u{200b}840.\u{200b}\u{200b}1"), "1.2.840.1");
    assert_eq!(strip_separators(""), "");
}

#[test]
fn doubled_separators_are_folded() {
    assert_eq!(
        fold_keyword("A\u{200b}\u{200b}B\u{200b}\u{200b}\u{200b}C\u{200b}D"),
        "A\u{200b}B\u{200b}C\u{200b}D"
    );
    assert_eq!(fold_keyword("Plain"), "Plain");
}

#[test]
fn range_tags_are_detected() {
    assert!(is_range_tag("(1000,xxx0)"));
    assert!(is_range_tag("(7Fxx,0010)"));
    assert!(!is_range_tag("(0008,0001)"));
    assert!(!is_range_tag("x(0008,0001)x"));
    assert!(!is_range_tag(""));
}

#[test]
fn range_entries_are_never_concrete() {
    let mut range = DataElement::new();
    range.tag = "(1000,xxx0)".to_string();
    range.keyword = "Escape\u{200b}Triplet".to_string();
    let mut unnamed = DataElement::new();
    unnamed.tag = "(0018,0061)".to_string();
    let mut concrete = DataElement::new();
    concrete.tag = "(0008,0001)".to_string();
    concrete.keyword = "Length\u{200b}To\u{200b}End".to_string();
    assert!(!range.is_concrete());
    assert!(!unnamed.is_concrete());
    assert!(concrete.is_concrete());
    let kept = concrete_elements(&vec![range, unnamed, concrete.clone()]);
    assert_eq!(kept, vec![concrete]);
}

#[test]
fn data_element_displays_as_one_line() {
    let mut e = DataElement::new();
    e.tag = "(0008,0001)".to_string();
    e.name = "Length to End".to_string();
    e.keyword = "LengthToEnd".to_string();
    e.vr = "UL".to_string();
    e.vm = "1".to_string();
    assert_eq!(
        e.to_display_string(),
        "Tag: (0008,0001), Name: Length to End, Keyword: LengthToEnd, VR: UL, VM: 1, Comment: "
    );
    e.comment = Some("RET".to_string());
    assert!(e.to_display_string().ends_with("Comment: RET"));
}

#[test]
fn new_records_are_empty() {
    let e = DataElement::new();
    assert_eq!(e, DataElement::default());
    let u = UID::new();
    assert!(u.value.is_empty() && u.full_name.is_empty() && u.normalized_name.is_empty());
    assert_eq!(u.kind, Kind::TransferSyntax);
}

#[test]
fn categories_are_matched_exactly() {
    assert_eq!(Kind::from_category("SOP Class"), Some(Kind::SopClass));
    assert_eq!(Kind::from_category("Meta SOP Class"), Some(Kind::MetaSopClass));
    assert_eq!(
        Kind::from_category("Well-known frame of reference"),
        Some(Kind::WellKnownFrameOfReference)
    );
    assert_eq!(
        Kind::from_category("Synchronization Frame of Reference"),
        Some(Kind::SynchronizationFrameOfReference)
    );
    assert_eq!(Kind::from_category("sop class"), None);
    assert_eq!(Kind::from_category("SOP Class "), None);
}

#[test]
fn first_matching_section_wins() {
    let first = element("tbody", vec![tr(&[Some("first")])]);
    let second = element("tbody", vec![tr(&[Some("second")])]);
    let root = element(
        "book",
        vec![
            chapter("6", vec![element("table", vec![element("thead", Vec::new())])]),
            element("appendix", vec![element("table", vec![element("tbody", Vec::new())])]),
            chapter("6", vec![element("table", vec![first, second])]),
        ],
    );
    let found = find_chapter_table_body(&root, "6").unwrap();
    assert_eq!(found.children.len(), 1);
    assert_eq!(
        found.children[0].children[0].children[0].text.as_deref(),
        Some("first")
    );
    assert!(find_chapter_table_body(&root, "7").is_none());
}

#[test]
fn missing_section_is_not_found() {
    let root = document("6", vec![tr(&[Some("(0008,0001)"), None, None, None, None])]);
    assert_eq!(
        decode_dictionary_section(&root, "9"),
        Err(ParseError::StructuralNotFound { label: "9".to_string() })
    );
    assert_eq!(
        decode_identifier_section(&root, "A"),
        Err(ParseError::StructuralNotFound { label: "A".to_string() })
    );
    let parser = Parser::with_part6_file_contents("<book><chapter label=\"6\"/></book>".to_string());
    assert_eq!(
        parser.parse_data_element_registry(),
        Err(ParseError::StructuralNotFound { label: "6".to_string() })
    );
}

#[test]
fn rows_of_wrong_width_are_rejected() {
    let good = || tr(&[Some("(0008,0001)"), Some("N"), Some("K"), Some("UL"), Some("1")]);
    let narrow = tr(&[Some("(0008,0002)"), Some("N"), Some("K"), Some("UL")]);
    let root = document("6", vec![good(), narrow]);
    assert_eq!(
        decode_dictionary_section(&root, "6"),
        Err(ParseError::RowShapeError { row: 1, columns: 4 })
    );
    let wide = tr(&[Some("a"), None, None, None, None, None, None]);
    let root = document("6", vec![wide, good()]);
    assert_eq!(
        decode_dictionary_section(&root, "6"),
        Err(ParseError::RowShapeError { row: 0, columns: 7 })
    );
}

#[test]
fn missing_texts_are_read_as_empty() {
    let root = document("6", vec![tr(&[Some("(0018,0061)"), None, None, Some("See Note 2"), None, None])]);
    let elements = decode_dictionary_section(&root, "6").unwrap();
    assert_eq!(elements.len(), 1);
    assert_eq!(elements[0].tag, "(0018,0061)");
    assert_eq!(elements[0], {
        let mut e = DataElement::new();
        e.tag = "(0018,0061)".to_string();
        e
    });
}

#[test]
fn emphasis_is_unwrapped() {
    let mut emphasis = element("emphasis", Vec::new());
    emphasis.text = Some("RET".to_string());
    let mut para = element("para", vec![emphasis]);
    para.text = None;
    let comment = element("td", vec![element("anchor", Vec::new()), para]);
    let mut row = tr(&[Some("(0008,0001)"), Some("N"), Some("K"), Some("UL"), Some("1")]);
    row.children.push(comment);
    let elements = decode_dictionary_section(&document("6", vec![row]), "6").unwrap();
    assert_eq!(elements[0].comment, Some("RET".to_string()));
}

#[test]
fn unknown_category_fails_the_whole_section() {
    let parser = Parser::with_part6_file_contents(uid_document(
        "<tr><td><para>1.2.3</para></td><td><para>Good</para></td><td><para>SOP Class</para></td><td><para>PS3.4</para></td></tr>\
         <tr><td><para>1.2.4</para></td><td><para>Bad</para></td><td><para>Something Else</para></td><td><para>PS3.4</para></td></tr>",
    ));
    assert_eq!(
        parser.parse_unique_identifier_registry(),
        Err(ParseError::UnknownCategory { row: 1, text: "Something Else".to_string() })
    );
}

#[test]
fn missing_category_is_reported() {
    let parser = Parser::with_part6_file_contents(uid_document(
        "<tr><td><para>1.2.3</para></td><td><para>Name</para></td><td><para/></td></tr>",
    ));
    assert_eq!(
        parser.parse_unique_identifier_registry(),
        Err(ParseError::MissingRequiredText { row: 0, column: 2 })
    );
}

#[test]
fn identifier_rows_of_wrong_width_are_rejected() {
    let parser = Parser::with_part6_file_contents(uid_document(
        "<tr><td><para>1.2.3</para></td><td><para>Name</para></td></tr>",
    ));
    assert_eq!(
        parser.parse_unique_identifier_registry(),
        Err(ParseError::RowShapeError { row: 0, columns: 2 })
    );
}

#[test]
fn three_column_identifier_rows_are_read() {
    let parser = Parser::with_part6_file_contents(uid_document(
        "<tr><td><para>1.2.&#8203;3</para></td><td><para>LDAP: x</para></td><td><para>LDAP OID</para></td></tr>",
    ));
    let uids = parser.parse_unique_identifier_registry().unwrap();
    assert_eq!(
        uids,
        vec![UID {
            value: "1.2.3".to_string(),
            full_name: "LDAP: x".to_string(),
            normalized_name: "LDAP".to_string(),
            kind: Kind::LdapOid,
        }]
    );
}

#[test]
fn malformed_documents_are_rejected() {
    let parser = Parser::with_part6_file_contents("<book><chapter label=\"6\">".to_string());
    assert!(matches!(
        parser.parse_data_element_registry(),
        Err(ParseError::MalformedDocument(_))
    ));
    assert!(matches!(parse_document(""), Err(ParseError::MalformedDocument(_))));
}

#[test]
fn documents_are_read_into_the_model() {
    let root = parse_document(
        "<book id=\"b\"><!-- note --><chapter label=\"6\">lead<title>T</title>tail</chapter>text</book>",
    )
    .unwrap();
    assert_eq!(root.name, "book");
    assert_eq!(root.attribute("id").map(|s| s.as_str()), Some("b"));
    assert_eq!(root.attribute("label"), None);
    assert_eq!(root.text.as_deref(), Some("text"));
    assert_eq!(root.children.len(), 1);
    let chapter = &root.children[0];
    assert_eq!(chapter.name, "chapter");
    assert_eq!(chapter.attribute("label").map(|s| s.as_str()), Some("6"));
    assert_eq!(chapter.text.as_deref(), Some("leadtail"));
    assert_eq!(chapter.children.len(), 1);
    assert_eq!(chapter.children[0].name, "title");
    assert_eq!(chapter.children[0].text.as_deref(), Some("T"));
    assert!(chapter.children[0].children.is_empty());
    assert_eq!(chapter.first_child_named("title").map(|t| t.name.as_str()), Some("title"));
}

fn nested(levels: usize) -> String {
    format!("{}{}", "<a>".repeat(levels), "</a>".repeat(levels))
}

#[test]
fn deeply_nested_documents_are_refused_before_parsing() {
    assert!(within_nesting_limit(&nested(MAX_NESTING)));
    assert!(!within_nesting_limit(&nested(MAX_NESTING + 1)));
    assert!(parse_document(&nested(MAX_NESTING)).is_ok());
    assert_eq!(
        parse_document(&nested(100_000)).err(),
        Some(ParseError::NestingTooDeep)
    );
    let parser = Parser::with_part6_file_contents(nested(MAX_NESTING + 1));
    assert_eq!(parser.parse_data_element_registry(), Err(ParseError::NestingTooDeep));
    assert_eq!(parser.parse_unique_identifier_registry(), Err(ParseError::NestingTooDeep));
}

#[test]
fn nesting_scan_reads_markup() {
    let closed_by_slash = "<a/>".repeat(MAX_NESTING + 5);
    assert!(within_nesting_limit(&format!("<?xml version=\"1.0\"?><r>{}</r>", closed_by_slash)));
    assert!(within_nesting_limit("<r><!-- </r></r> --><![CDATA[ </r> ]]><a x=\"/>\" y='>'/></r>"));
    assert!(!within_nesting_limit("<!DOCTYPE r [<!ENTITY e \"x\">]><r/>"));
    let quoted = format!("<r>{}</r>", "<a x=\"/>\">".repeat(MAX_NESTING));
    assert!(!within_nesting_limit(&quoted));
}

#[test]
fn attributes_are_looked_up_by_key() {
    let root = parse_document("<e b=\"2\" a=\"1\" label=\"6\"/>").unwrap();
    assert_eq!(root.attribute("a").map(|s| s.as_str()), Some("1"));
    assert_eq!(root.attribute("b").map(|s| s.as_str()), Some("2"));
    assert_eq!(root.attribute("label").map(|s| s.as_str()), Some("6"));
    assert_eq!(root.attribute("c"), None);
}
