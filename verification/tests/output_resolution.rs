use pymupdf4llm_c::output::{
    default_output_file, default_output_location, parent_of, resolve_output_file,
    resolve_output_location, ArtifactGranularity,
};

#[test]
fn default_output_derives_from_the_stem() {
    let r = default_output_file(&b"/docs/report.pdf".to_vec());
    assert_eq!(r, b"/docs/report.json".to_vec());
}

#[test]
fn default_output_without_extension_appends() {
    let r = default_output_file(&b"/docs/report".to_vec());
    assert_eq!(r, b"/docs/report.json".to_vec());
}

#[test]
fn leading_dot_is_not_an_extension() {
    let r = default_output_file(&b"/docs/.hidden".to_vec());
    assert_eq!(r, b"/docs/.hidden.json".to_vec());
}

#[test]
fn per_page_location_uses_directory_suffix() {
    let r = default_output_location(&b"/docs/report.pdf".to_vec(), ArtifactGranularity::PerPage);
    assert_eq!(r, b"/docs/report_json".to_vec());
}

#[test]
fn explicit_output_location_wins() {
    let out = b"/elsewhere/out.json".to_vec();
    let r = resolve_output_file(&b"/docs/report.pdf".to_vec(), Some(&out));
    assert_eq!(r, out);
    let r = resolve_output_location(
        &b"/docs/report.pdf".to_vec(),
        Some(&out),
        ArtifactGranularity::PerPage,
    );
    assert_eq!(r, out);
}

#[test]
fn omitted_output_location_is_deterministic() {
    let a = resolve_output_file(&b"/docs/report.pdf".to_vec(), None);
    let b = resolve_output_file(&b"/docs/report.pdf".to_vec(), None);
    assert_eq!(a, b);
    assert_eq!(a, b"/docs/report.json".to_vec());
}

#[test]
fn parent_is_the_directory_part() {
    assert_eq!(parent_of(&b"/docs/report.json".to_vec()), Some(b"/docs".to_vec()));
    assert_eq!(parent_of(&b"report.json".to_vec()), None);
    assert_eq!(parent_of(&b"/report.json".to_vec()), Some(b"".to_vec()));
}
