use pymupdf4llm_c::aggregate::collect_page_blocks;
use pymupdf4llm_c::errors::{FieldName, PdfError, SchemaErr};

fn page(text: &str, length: i64) -> String {
    format!(
        "[{{\"type\": \"paragraph\", \"text\": \"{}\", \"bbox\": [0, 0, 1, 1], \
         \"page_number\": 1, \"length\": {}}}]",
        text, length
    )
}

#[test]
fn pages_aggregate_in_artifact_order() {
    let texts = vec![page("first", 5), page("second", 6)];
    let pages = collect_page_blocks(&texts).unwrap();
    assert_eq!(pages.len(), 2);
    assert_eq!(pages[0].len(), 1);
    assert_eq!(pages[0][0].text, "first");
    assert_eq!(pages[1][0].text, "second");
}

#[test]
fn empty_listing_aggregates_to_nothing() {
    let texts: Vec<String> = Vec::new();
    let pages = collect_page_blocks(&texts).unwrap();
    assert!(pages.is_empty());
}

#[test]
fn one_bad_page_fails_the_whole_aggregation() {
    let texts = vec![page("good", 4), "[{\"type\": \"p\"}]".to_owned(), page("later", 5)];
    let r = collect_page_blocks(&texts);
    assert!(matches!(
        r,
        Err(PdfError::Json(SchemaErr::Missing(FieldName::Text)))
    ));
}

#[test]
fn unparseable_page_fails_with_syntax() {
    let texts = vec![page("good", 4), "{".to_owned()];
    let r = collect_page_blocks(&texts);
    assert!(matches!(r, Err(PdfError::Json(SchemaErr::Syntax))));
}
