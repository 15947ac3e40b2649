use pymupdf4llm_c::artifacts::{is_page_artifact, select_artifacts};

fn names(list: &[&str]) -> Vec<Vec<u8>> {
    list.iter().map(|s| s.as_bytes().to_vec()).collect()
}

#[test]
fn discovery_sorts_lexicographically() {
    // lexicographic order, documenting the zero-padding requirement:
    // page_10 sorts before page_2
    let listing = names(&["page_2.json", "page_10.json", "page_1.json"]);
    let sorted = select_artifacts(&listing);
    assert_eq!(sorted, names(&["page_1.json", "page_10.json", "page_2.json"]));
}

#[test]
fn discovery_filters_foreign_names() {
    let listing = names(&[
        "page_2.json",
        "notes.txt",
        "page_3.txt",
        "age_1.json",
        "page_1.json",
        "summary.json",
    ]);
    let sorted = select_artifacts(&listing);
    assert_eq!(sorted, names(&["page_1.json", "page_2.json"]));
}

#[test]
fn discovery_keeps_duplicates() {
    let listing = names(&["page_1.json", "page_1.json"]);
    let sorted = select_artifacts(&listing);
    assert_eq!(sorted, names(&["page_1.json", "page_1.json"]));
}

#[test]
fn artifact_name_form() {
    assert!(is_page_artifact(&b"page_.json".to_vec()));
    assert!(is_page_artifact(&b"page_0001.json".to_vec()));
    assert!(!is_page_artifact(&b"page.json".to_vec()));
    assert!(!is_page_artifact(&b"page_1.txt".to_vec()));
    assert!(!is_page_artifact(&b"xpage_1.json".to_vec()));
}
