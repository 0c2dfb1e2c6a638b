use dicom_dictionary_parser::{Kind, Parser};

/// A small document laid out as part 6 of the standard is: chapters labelled
/// "6", "7", "8" and "A", each holding a table whose body lists the registry.
fn part6_document() -> String {
    let mut doc = String::new();
    doc.push_str("<?xml version=\"1.0\" encoding=\"utf-8\"?>\n");
    doc.push_str("<book xmlns=\"http://docbook.org/ns/docbook\" label=\"PS3.6\">\n");
    doc.push_str("<chapter label=\"5\"><title>Conventions</title><para>Text</para></chapter>\n");
    doc.push_str("<chapter label=\"6\" xml:id=\"chapter_6\"><title>Registry of DICOM Data Elements</title>\n");
    doc.push_str("<table frame=\"box\"><caption>Registry of DICOM Data Elements</caption>\n");
    doc.push_str("<thead><tr><th><para>Tag</para></th><th><para>Name</para></th></tr></thead>\n<tbody>\n");
    doc.push_str(&row(&["(0008,0001)", "Length to End", "Length&#8203;To&#8203;End", "UL", "1", "RET"], true));
    doc.push_str(&row(&["(0008,0005)", "Specific Character Set", "Specific&#8203;Character&#8203;Set", "CS", "1-n", ""], false));
    doc.push_str("<tr><td><para><emphasis role=\"italic\">(0018,0061)</emphasis></para></td><td><para/></td><td><para/></td>");
    doc.push_str("<td><para><emphasis role=\"italic\">DS</emphasis></para></td><td><para><emphasis role=\"italic\">1</emphasis></para></td>");
    doc.push_str("<td><para><emphasis role=\"italic\">RET</emphasis></para></td></tr>\n");
    doc.push_str(&row(&["(1000,xxx0)", "Escape Triplet", "Escape&#8203;Triplet", "US", "3", "RET"], true));
    doc.push_str(&row(&["(FFFE,E000)", "Item", "Item", "See Note 2", "1", ""], false));
    doc.push_str(&row(&["(FFFE,E00D)", "Item Delimitation Item", "Item&#8203;Delimitation&#8203;Item", "See Note 2", "1", ""], false));
    doc.push_str("</tbody></table></chapter>\n");
    doc.push_str("<chapter label=\"7\"><title>Registry of DICOM File Meta Elements</title><table><tbody>\n");
    doc.push_str(&row(&["(0002,0000)", "File Meta Information Group Length", "File&#8203;Meta&#8203;Information&#8203;Group&#8203;Length", "UL", "1"], false));
    doc.push_str(&row(&["(0002,0001)", "File Meta Information Version", "File&#8203;Meta&#8203;Information&#8203;Version", "OB", "1"], false));
    doc.push_str(&row(&["(0002,0010)", "Transfer Syntax UID", "Transfer&#8203;Syntax&#8203;UID", "UI", "1"], false));
    doc.push_str("</tbody></table></chapter>\n");
    doc.push_str("<chapter label=\"8\"><title>Registry of DICOM Directory Structuring Elements</title><table><tbody>\n");
    doc.push_str(&row(&["(0004,1130)", "File-set ID", "File&#8203;Set&#8203;ID", "CS", "1"], false));
    doc.push_str(&row(&["(0004,1212)", "File-set Consistency Flag", "File&#8203;Set&#8203;Consistency&#8203;Flag", "US", "1"], false));
    doc.push_str("</tbody></table></chapter>\n");
    doc.push_str("<chapter label=\"A\"><title>Registry of DICOM Unique Identifiers (UIDs)</title><table><tbody>\n");
    doc.push_str(&row(&["1.2.840.10008.1.1", "Verification SOP Class", "SOP Class", "PS3.4"], false));
    doc.push_str(&row(&["1.2.840.10008.1.2", "Implicit VR Little Endian: Default Transfer Syntax for DICOM", "Transfer Syntax", "PS3.5"], false));
    doc.push_str(&row(&["1.2.840.10008.&#8203;1.2.1", "Explicit VR Little Endian", "Transfer Syntax", "PS3.5"], false));
    doc.push_str(&row(&["1.2.840.10008.1.2.2", "Explicit VR Big Endian (Retired)", "Transfer Syntax", "PS3.5"], true));
    doc.push_str("</tbody></table></chapter>\n</book>\n");
    doc
}

/// One table row; an empty text gives an empty paragraph; `italic` wraps each
/// text in an emphasis, as the standard does for retired entries.
fn row(cells: &[&str], italic: bool) -> String {
    let mut out = String::from("<tr>");
    for cell in cells {
        if cell.is_empty() {
            out.push_str("<td><para/></td>");
        } else if italic {
            out.push_str(&format!("<td><para><emphasis role=\"italic\">{}</emphasis></para></td>", cell));
        } else {
            out.push_str(&format!("<td><para>{}</para></td>", cell));
        }
    }
    out.push_str("</tr>\n");
    out
}

fn parser_from_file() -> Parser {
    Parser::with_part6_file_contents(part6_document())
}

#[test]
fn normalize_uid_name_doesnt_change_input_without_colon_or_retired() {
    assert_eq!(Parser::normalize_uid_name("Test String"), "Test String".to_owned());
}

#[test]
fn normalize_uid_name_strips_everything_starting_at_colon() {
    assert_eq!(
        Parser::normalize_uid_name("Test String: With a colon"),
        "Test String".to_owned()
    );
}

#[test]
fn normalize_uid_name_removes_retired() {
    assert_eq!(
        Parser::normalize_uid_name("Test String (Retired)"),
        "Test String".to_owned()
    );
}

#[test]
fn parse_data_element_registry_from_file() {
    let parser = parser_from_file();
    match parser.parse_data_element_registry() {
        Ok(elements) => {
            assert_eq!(elements.len(), 6);

            let item_delimitation_item = &elements[5];
            assert_eq!(item_delimitation_item.tag, "(FFFE,E00D)");
            assert_eq!(item_delimitation_item.name, "Item Delimitation Item");
            assert_eq!(
                item_delimitation_item.keyword,
                "Item\u{200b}Delimitation\u{200b}Item"
            );
            assert_eq!(item_delimitation_item.vr, "");
            assert_eq!(item_delimitation_item.vm, "1");
            assert!(item_delimitation_item.comment.is_none());

            let escape_triplet = &elements[3];
            assert_eq!(escape_triplet.tag, "(1000,xxx0)");

            let unnamed_element = &elements[2];
            assert_eq!(unnamed_element.tag, "(0018,0061)");
            assert!(unnamed_element.name.is_empty());
            assert!(unnamed_element.keyword.is_empty());
            assert_eq!(unnamed_element.vr, "DS");
            assert_eq!(unnamed_element.vm, "1");
            assert_eq!(unnamed_element.comment, Some("RET".to_string()));
        }
        Err(e) => panic!("{:?}", e),
    }
}

#[test]
fn parse_file_meta_element_registry_from_file() {
    let parser = parser_from_file();
    match parser.parse_file_meta_element_registry() {
        Ok(elements) => {
            assert_eq!(elements.len(), 3);

            let transfer_syntax_uid = &elements[2];
            assert_eq!(transfer_syntax_uid.tag, "(0002,0010)");
            assert_eq!(transfer_syntax_uid.name, "Transfer Syntax UID");
            assert_eq!(
                transfer_syntax_uid.keyword,
                "Transfer\u{200b}Syntax\u{200b}UID"
            );
            assert_eq!(transfer_syntax_uid.vr, "UI");
            assert_eq!(transfer_syntax_uid.vm, "1");
            assert!(transfer_syntax_uid.comment.is_none());
        }
        Err(e) => panic!("{:?}", e),
    }
}

#[test]
fn parse_data_element_registry_from_downloaded_dict() {
    let parser = parser_from_file();
    match parser.parse_data_element_registry() {
        Ok(elements) => {
            assert!(elements.len() > 1);

            let length_to_end = &elements[0];
            assert_eq!(length_to_end.tag, "(0008,0001)");
            assert_eq!(length_to_end.name, "Length to End");
            assert_eq!(length_to_end.keyword, "Length\u{200b}To\u{200b}End");
            assert_eq!(length_to_end.vr, "UL");
            assert_eq!(length_to_end.vm, "1");
            assert_eq!(length_to_end.comment, Some("RET".to_string()));

            let specific_character_set = &elements[1];
            assert_eq!(specific_character_set.tag, "(0008,0005)");
            assert_eq!(specific_character_set.vm, "1-n");
            assert!(specific_character_set.comment.is_none());
        }
        Err(e) => panic!("{:?}", e),
    }
}

#[test]
fn parse_file_meta_element_registry_from_downloaded_dict() {
    let parser = parser_from_file();
    match parser.parse_file_meta_element_registry() {
        Ok(elements) => {
            assert!(elements.len() > 1);

            let file_meta_information_group_length = &elements[0];
            assert_eq!(file_meta_information_group_length.tag, "(0002,0000)");
            assert_eq!(
                file_meta_information_group_length.name,
                "File Meta Information Group Length"
            );
            assert_eq!(
                file_meta_information_group_length.keyword,
                "File\u{200b}Meta\u{200b}Information\u{200b}Group\u{200b}Length"
            );
            assert_eq!(file_meta_information_group_length.vr, "UL");
            assert_eq!(file_meta_information_group_length.vm, "1");
            assert!(file_meta_information_group_length.comment.is_none());
        }
        Err(e) => panic!("{:?}", e),
    }
}

#[test]
fn parse_directory_structuring_elements_from_file() {
    let parser = parser_from_file();
    match parser.parse_directory_structuring_element_registry() {
        Ok(elements) => {
            assert_eq!(elements.len(), 2);

            let consistency_flag = &elements[1];
            assert_eq!(consistency_flag.tag, "(0004,1212)");
            assert_eq!(consistency_flag.name, "File-set Consistency Flag");
            assert_eq!(
                consistency_flag.keyword,
                "File\u{200b}Set\u{200b}Consistency\u{200b}Flag"
            );
            assert_eq!(consistency_flag.vr, "US");
            assert_eq!(consistency_flag.vm, "1");
            assert!(consistency_flag.comment.is_none());
        }
        Err(e) => panic!("{:?}", e),
    }
}

#[test]
fn parse_directory_structuring_elements_from_downloaded_dict() {
    let parser = parser_from_file();
    match parser.parse_directory_structuring_element_registry() {
        Ok(elements) => {
            assert!(elements.len() > 1);

            let file_set_id = &elements[0];
            assert_eq!(file_set_id.tag, "(0004,1130)");
            assert_eq!(file_set_id.name, "File-set ID");
            assert_eq!(file_set_id.keyword, "File\u{200b}Set\u{200b}ID");
            assert_eq!(file_set_id.vr, "CS");
            assert_eq!(file_set_id.vm, "1");
            assert!(file_set_id.comment.is_none());
        }
        Err(e) => panic!("{:?}", e),
    }
}

#[test]
fn parse_unique_identifiers_from_file() {
    let parser = parser_from_file();
    match parser.parse_unique_identifier_registry() {
        Ok(uids) => {
            assert_eq!(uids.len(), 4);

            let explicit_vr_little_endian = &uids[2];
            assert_eq!(explicit_vr_little_endian.value, "1.2.840.10008.1.2.1");
            assert_eq!(
                explicit_vr_little_endian.normalized_name,
                "Explicit VR Little Endian"
            );
            assert_eq!(explicit_vr_little_endian.kind, Kind::TransferSyntax);
        }
        Err(e) => panic!("{:?}", e),
    }
}

#[test]
fn unique_identifiers_keep_full_names_and_normalize() {
    let uids = parser_from_file().parse_unique_identifier_registry().unwrap();
    assert_eq!(uids[0].kind, Kind::SopClass);
    assert_eq!(uids[0].normalized_name, "Verification SOP Class");
    assert_eq!(
        uids[1].full_name,
        "Implicit VR Little Endian: Default Transfer Syntax for DICOM"
    );
    assert_eq!(uids[1].normalized_name, "Implicit VR Little Endian");
    assert_eq!(uids[3].full_name, "Explicit VR Big Endian (Retired)");
    assert_eq!(uids[3].normalized_name, "Explicit VR Big Endian");
}

#[test]
fn see_note_vr_is_read_as_empty() {
    let elements = parser_from_file().parse_data_element_registry().unwrap();
    assert_eq!(elements[4].tag, "(FFFE,E000)");
    assert_eq!(elements[4].vr, "");
    assert_eq!(elements[4].vm, "1");
}

#[test]
fn decoded_tags_are_well_formed() {
    let elements = parser_from_file().parse_data_element_registry().unwrap();
    for element in &elements {
        let chars: Vec<char> = element.tag.chars().collect();
        assert_eq!(chars.len(), 11);
        assert_eq!(chars[0], '(');
        assert_eq!(chars[5], ',');
        assert_eq!(chars[10], ')');
        for i in (1..5).chain(6..10) {
            assert!(chars[i].is_ascii_hexdigit() || chars[i] == 'x');
        }
    }
}

#[test]
fn decoding_twice_gives_the_same_records() {
    let parser = parser_from_file();
    let first = parser.parse_data_element_registry().unwrap();
    let second = parser.parse_data_element_registry().unwrap();
    assert_eq!(first.len(), 6);
    assert_eq!(first, second);
    let uids_first = parser.parse_unique_identifier_registry().unwrap();
    let uids_second = parser.parse_unique_identifier_registry().unwrap();
    assert_eq!(uids_first, uids_second);
}
