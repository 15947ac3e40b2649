use pymupdf4llm_c::errors::PdfError;
use pymupdf4llm_c::gateway::{
    interpret_document_code, interpret_page_result, plan_document, plan_page,
};
use pymupdf4llm_c::output::ArtifactGranularity;

#[test]
fn missing_input_fails_before_any_native_call() {
    // with no plan there is nothing to hand to the native engine: a stub
    // call counter stays at zero
    let mut native_calls = 0;
    let r = plan_document(
        &b"/no/such/file.pdf".to_vec(),
        None::<&Vec<u8>>,
        ArtifactGranularity::MergedDocument,
        false,
    );
    match r {
        Ok(_plan) => native_calls += 1,
        Err(e) => assert!(
            matches!(e, PdfError::MissingInput(ref p) if p == &b"/no/such/file.pdf".to_vec())
        ),
    }
    assert_eq!(native_calls, 0);
}

#[test]
fn missing_input_fails_page_extraction_too() {
    let mut native_calls = 0;
    let r = plan_page(&b"/no/such/file.pdf".to_vec(), 0, false);
    match r {
        Ok(_plan) => native_calls += 1,
        Err(e) => assert!(matches!(e, PdfError::MissingInput(_))),
    }
    assert_eq!(native_calls, 0);
}

#[test]
fn page_number_at_native_boundary_succeeds() {
    let plan = plan_page(&b"/docs/a.pdf".to_vec(), i32::MAX as usize, true).unwrap();
    assert_eq!(plan.page, i32::MAX);
    assert_eq!(plan.pdf_cstr, b"/docs/a.pdf\0".to_vec());
}

#[test]
fn page_number_past_native_boundary_fails() {
    let r = plan_page(&b"/docs/a.pdf".to_vec(), i32::MAX as usize + 1, true);
    assert!(matches!(r, Err(PdfError::PageNumberOverflow)));
}

#[test]
fn embedded_nul_fails_before_the_boundary() {
    let r = plan_page(&b"a\0b.pdf".to_vec(), 0, true);
    assert!(matches!(r, Err(PdfError::Nul(1))));
    let r = plan_document(
        &b"a\0b.pdf".to_vec(),
        None::<&Vec<u8>>,
        ArtifactGranularity::MergedDocument,
        true,
    );
    assert!(matches!(r, Err(PdfError::Nul(1))));
}

#[test]
fn embedded_nul_in_output_location_rejected() {
    let out = b"out\0dir/x.json".to_vec();
    let r = plan_document(
        &b"/docs/a.pdf".to_vec(),
        Some(&out),
        ArtifactGranularity::MergedDocument,
        true,
    );
    assert!(matches!(r, Err(PdfError::Nul(3))));
}

#[test]
fn document_plan_resolves_default_target() {
    let plan = plan_document(
        &b"/docs/report.pdf".to_vec(),
        None::<&Vec<u8>>,
        ArtifactGranularity::MergedDocument,
        true,
    )
    .unwrap();
    assert_eq!(plan.target, b"/docs/report.json".to_vec());
    assert_eq!(plan.pdf_cstr, b"/docs/report.pdf\0".to_vec());
    assert_eq!(plan.out_cstr, b"/docs/report.json\0".to_vec());
}

#[test]
fn nonzero_engine_code_is_carried_verbatim() {
    let r = interpret_document_code(7, b"/docs/report.json".to_vec());
    assert!(matches!(r, Err(PdfError::CError(7))));
}

#[test]
fn zero_engine_code_hands_the_target_back() {
    let r = interpret_document_code(0, b"/docs/report.json".to_vec());
    assert_eq!(r.unwrap(), b"/docs/report.json".to_vec());
}

#[test]
fn null_native_result_is_its_own_failure() {
    // the null sentinel means no buffer was ever handed over, so there is
    // nothing to release
    let mut releases = 0;
    let native: Option<Vec<u8>> = None;
    if native.is_some() {
        releases += 1;
    }
    let r = interpret_page_result(native);
    assert!(matches!(r, Err(PdfError::NullResult)));
    assert_eq!(releases, 0);
}

#[test]
fn valid_buffer_decodes_to_text() {
    let r = interpret_page_result(Some(b"[{\"k\":1}]".to_vec()));
    assert_eq!(r.unwrap(), "[{\"k\":1}]");
}

#[test]
fn invalid_utf8_buffer_is_a_decode_failure() {
    let r = interpret_page_result(Some(vec![0x5b, 0xff, 0xfe]));
    assert!(matches!(r, Err(PdfError::Utf8(1))));
}
