use bbs_core::data::MaterialKind;
use bbs_core::extract::{
    assignment_data, body_from_detail, discussion_data, file_data, parse_class_materials,
};

fn materials_page() -> String {
    let mut page = String::new();
    page.push_str("<html><body><table>");
    // two assignment rows, the second without a due date
    page.push_str("<tr class=\"type-assignment\"><td class=\"item-info\"><span class=\"item-title\"><a href=\"/assignment/123456\">Homework 1</a></span><span class=\"item-subtitle\"><span>Due Friday</span></span></td></tr>");
    page.push_str("<tr class=\"type-assignment\"><td class=\"item-info\"><span class=\"item-title\"><a href=\"/assignment/777\">Homework 2</a></span></td></tr>");
    // three document rows: a file with a nested title, a plain file, a link
    page.push_str("<tr class=\"type-document\" id=\"course-item-555\"><td><div class=\"attachments-file\"><span class=\"attachments-file-name\"><a><span class=\"file-title\">Notes.pdf</span></a></span></div></td></tr>");
    page.push_str("<tr class=\"type-document\" id=\"course-item-556\"><td><div class=\"attachments-file\"><span class=\"attachments-file-name\"><a>Plain.pdf</a></span></div></td></tr>");
    page.push_str("<tr class=\"type-document\" id=\"course-item-557\"><td><div class=\"attachments-link\"><a href=\"https://example.org\">Example Link</a></div></td></tr>");
    // one discussion row
    page.push_str("<tr class=\"type-discussion\"><td class=\"item-info\"><span class=\"item-title\"><a href=\"/discussion/888\">Open Topic</a></span></td></tr>");
    page.push_str("</table></body></html>");
    page
}

#[test]
fn assignment_pass_reads_title_id_and_due() {
    let entries = assignment_data(&materials_page());
    assert_eq!(entries.len(), 2);
    assert_eq!(entries[0].id, "123456");
    assert_eq!(entries[0].title, "Homework 1");
    assert_eq!(entries[0].due, "Due Friday");
    assert_eq!(entries[0].kind, MaterialKind::Assignment);
    assert_eq!(entries[0].body, "");
    assert_eq!(entries[1].id, "777");
    assert_eq!(entries[1].due, "No Due Date Specified");
}

#[test]
fn file_pass_classifies_and_unwraps_titles() {
    let entries = file_data(&materials_page());
    assert_eq!(entries.len(), 3);
    assert_eq!(entries[0].kind, MaterialKind::File);
    assert_eq!(entries[0].id, "555");
    assert_eq!(entries[0].title, "Notes.pdf");
    assert_eq!(entries[1].kind, MaterialKind::File);
    assert_eq!(entries[1].title, "Plain.pdf");
    assert_eq!(entries[2].kind, MaterialKind::Link);
    assert_eq!(entries[2].id, "557");
    assert_eq!(entries[2].title, "Example Link");
    assert_eq!(entries[2].due, "No Due Date Specified");
}

#[test]
fn discussion_pass_reads_title_and_id() {
    let entries = discussion_data(&materials_page());
    assert_eq!(entries.len(), 1);
    assert_eq!(entries[0].id, "888");
    assert_eq!(entries[0].title, "Open Topic");
    assert_eq!(entries[0].kind, MaterialKind::Discussion);
}

#[test]
fn pipeline_concatenates_passes_in_order() {
    let entries = parse_class_materials(&materials_page());
    // two assignments, three files/links, one discussion
    assert_eq!(entries.len(), 2 + 3 + 1);
    let kinds: Vec<MaterialKind> = entries.iter().map(|e| e.kind).collect();
    assert_eq!(
        kinds,
        vec![
            MaterialKind::Assignment,
            MaterialKind::Assignment,
            MaterialKind::File,
            MaterialKind::File,
            MaterialKind::Link,
            MaterialKind::Discussion,
        ]
    );
    for e in &entries {
        assert!(!e.id.is_empty());
        assert!(!e.title.is_empty());
        assert!(e.body.is_empty());
    }
}

#[test]
fn empty_page_yields_no_entries() {
    let entries = parse_class_materials("<html><body></body></html>");
    assert!(entries.is_empty());
}

#[test]
fn detail_body_comes_from_content_container() {
    let page = "<html><body><div class=\"info-body\">Hello body</div></body></html>";
    assert_eq!(body_from_detail(page), "Hello body");
    assert_eq!(body_from_detail("<html><body><p>nothing here</p></body></html>"), "");
}
