use deepwell::error::ErrorType;
use deepwell::import::{import_output, import_plan, same_record, ImportedRow};

fn row(id: i64, number: i32, comments: &str) -> ImportedRow {
    ImportedRow {
        source_page_id: 100,
        source_revision_id: id,
        source_revision_number: number,
        source_author_id: Some(5),
        source_created_at: 1_000,
        source_comments: comments.to_string(),
        source_flags: vec!["S".to_string()],
        source_title: Some("Title".to_string()),
        source_slug: None,
        source_tags: Some(vec!["tag".to_string()]),
        wikitext_hash: vec![1, 2, 3],
        raw_source_html: "<p>x</p>".to_string(),
        acquired_at: 2_000,
        representation: "display-decoded-not-byte-exact".to_string(),
    }
}

#[test]
fn reimporting_the_same_history_inserts_nothing() {
    let incoming = vec![row(1, 0, "a"), row(2, 1, "b")];
    let flags = import_plan(&Vec::new(), &incoming).unwrap();
    assert_eq!(flags, vec![true, true]);
    assert_eq!(import_output(&flags).inserted, 2);
    let stored = vec![row(1, 0, "a"), row(2, 1, "b")];
    let flags = import_plan(&stored, &incoming).unwrap();
    assert_eq!(flags, vec![false, false]);
    assert_eq!(import_output(&flags).inserted, 0);
}

#[test]
fn a_revision_differing_from_its_stored_row_is_refused() {
    let stored = vec![row(1, 0, "a")];
    let error = import_plan(&stored, &vec![row(2, 1, "b"), row(1, 0, "changed")]).unwrap_err();
    assert_eq!((error.error_type, error.message.as_str()), (ErrorType::DatabaseImport, "imported revision conflicts with the stored source record"));
    assert!(import_plan(&stored, &vec![row(9, 0, "a")]).is_err());
    assert!(same_record(&row(1, 0, "a"), &row(1, 0, "a")));
    let mut other = row(1, 0, "a");
    other.source_tags = None;
    assert!(!same_record(&row(1, 0, "a"), &other));
}
