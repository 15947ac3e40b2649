//! The extraction gateway's decision logic.
//!
//! The native calls themselves happen outside this crate; what stands here
//! is everything the gateway decides around them. Before a call: the input
//! path must exist, every string that crosses the boundary must be free of
//! embedded NUL bytes and gets its terminator, and a page number must fit
//! the native entry point's signed 32-bit range. After a call: a nonzero
//! return code of the whole-document entry point becomes a typed error
//! carrying the code verbatim, the null sentinel of the single-page entry
//! point becomes its own error kind, and a returned buffer's bytes are
//! decoded as UTF-8 or rejected. The caller performs the calls in this
//! order and hands each outcome in as a plain value.

use vstd::prelude::*;
use vstd::utf8::{decode_utf8, valid_utf8};
use crate::errors::{PdfError, PdfErrorView};
use crate::output::{
    copy_bytes, resolve_output_location, resolve_output_view, ArtifactGranularity,
};

verus! {

/// Whether `p` holds an embedded NUL byte, which no native string can
/// carry.
pub open spec fn has_nul(p: Seq<u8>) -> bool {
    exists|j: int| 0 <= j < p.len() && p[j] == 0
}

/// Whether `i` is the position of the first NUL byte of `p`.
pub open spec fn nul_first(p: Seq<u8>, i: int) -> bool {
    &&& 0 <= i < p.len()
    &&& p[i] == 0
    &&& forall|j: int| 0 <= j < i ==> p[j] != 0
}

/// Finds the first embedded NUL byte of `p`.
pub fn find_nul(p: &Vec<u8>) -> (r: Option<usize>)
    ensures
        match r {
            Some(i) => nul_first(p@, i as int),
            None => !has_nul(p@),
        },
{
    let n = p.len();
    let mut i: usize = 0;
    while i < n
        invariant
            i <= n,
            n == p@.len(),
            forall|j: int| 0 <= j < i ==> p@[j] != 0,
        decreases n - i,
    {
        if p[i] == 0 {
            return Some(i);
        }
        i = i + 1;
    }
    None
}

/// Appends the NUL terminator a native string needs.
fn with_nul(src: &Vec<u8>) -> (r: Vec<u8>)
    ensures
        r@ == src@ + seq![0u8],
{
    let mut out = copy_bytes(src);
    out.push(0);
    proof {
        assert(out@ =~= src@ + seq![0u8]);
    }
    out
}

/// Everything the whole-document native call needs, validated: both
/// strings NUL-terminated and free of embedded NULs.
pub struct DocPlan {
    /// The input path, NUL-terminated for the native call.
    pub pdf_cstr: Vec<u8>,
    /// The resolved output location, NUL-terminated for the native call.
    pub out_cstr: Vec<u8>,
    /// The resolved output location, as handed back to the caller once the
    /// call succeeds.
    pub target: Vec<u8>,
}

/// Plans the whole-document extraction call.
///
/// `pdf_exists` is the caller's answer to whether the input path exists as
/// a readable file; it is checked before anything else, so no plan — and
/// hence no native call — exists for a missing input. The output location
/// is resolved from the caller's choice or the input's stem, and both
/// boundary strings are validated against embedded NULs, the input path
/// first.
pub fn plan_document(
    pdf_path: &Vec<u8>,
    output: Option<&Vec<u8>>,
    granularity: ArtifactGranularity,
    pdf_exists: bool,
) -> (r: Result<DocPlan, PdfError>)
    ensures
        ({
            let target = resolve_output_view(
                pdf_path@,
                match output {
                    Some(o) => Some(o@),
                    None => None,
                },
                granularity,
            );
            match r {
                Ok(plan) => {
                    &&& pdf_exists
                    &&& !has_nul(pdf_path@)
                    &&& !has_nul(target)
                    &&& plan.pdf_cstr@ == pdf_path@ + seq![0u8]
                    &&& plan.out_cstr@ == target + seq![0u8]
                    &&& plan.target@ == target
                },
                Err(e) => match e@ {
                    PdfErrorView::MissingInput(p) => !pdf_exists && p == pdf_path@,
                    PdfErrorView::Nul(i) => {
                        &&& pdf_exists
                        &&& if has_nul(pdf_path@) {
                            nul_first(pdf_path@, i as int)
                        } else {
                            nul_first(target, i as int)
                        }
                    },
                    _ => false,
                },
            }
        }),
{
    if !pdf_exists {
        return Err(PdfError::MissingInput(copy_bytes(pdf_path)));
    }
    if let Some(i) = find_nul(pdf_path) {
        return Err(PdfError::Nul(i));
    }
    let target = resolve_output_location(pdf_path, output, granularity);
    if let Some(i) = find_nul(&target) {
        return Err(PdfError::Nul(i));
    }
    let pdf_cstr = with_nul(pdf_path);
    let out_cstr = with_nul(&target);
    Ok(DocPlan { pdf_cstr, out_cstr, target })
}

/// Judges the whole-document native call's return code: zero hands the
/// planned target back, any other code is a native-engine failure carried
/// verbatim.
pub fn interpret_document_code(code: i32, target: Vec<u8>) -> (r: Result<Vec<u8>, PdfError>)
    ensures
        match r {
            Ok(t) => code == 0 && t == target,
            Err(e) => code != 0 && e@ == PdfErrorView::CError(code),
        },
{
    if code == 0 {
        Ok(target)
    } else {
        Err(PdfError::CError(code))
    }
}

/// Everything the single-page native call needs, validated: the path
/// NUL-terminated and NUL-free, the page number within the native range.
pub struct PagePlan {
    /// The input path, NUL-terminated for the native call.
    pub pdf_cstr: Vec<u8>,
    /// The page number, in the native entry point's convention.
    pub page: i32,
}

/// Plans the single-page extraction call.
///
/// The existence of the input is checked first, then the page number
/// against the native entry point's signed 32-bit range, then the path
/// against embedded NULs; the first violation decides the error, and no
/// plan exists for it.
pub fn plan_page(pdf_path: &Vec<u8>, page_number: usize, pdf_exists: bool) -> (r: Result<
    PagePlan,
    PdfError,
>)
    ensures
        match r {
            Ok(plan) => {
                &&& pdf_exists
                &&& page_number <= i32::MAX as usize
                &&& !has_nul(pdf_path@)
                &&& plan.pdf_cstr@ == pdf_path@ + seq![0u8]
                &&& plan.page == page_number as i32
            },
            Err(e) => match e@ {
                PdfErrorView::MissingInput(p) => !pdf_exists && p == pdf_path@,
                PdfErrorView::PageNumberOverflow => pdf_exists && page_number > i32::MAX as usize,
                PdfErrorView::Nul(i) => {
                    &&& pdf_exists
                    &&& page_number <= i32::MAX as usize
                    &&& nul_first(pdf_path@, i as int)
                },
                _ => false,
            },
        },
{
    if !pdf_exists {
        return Err(PdfError::MissingInput(copy_bytes(pdf_path)));
    }
    if page_number > i32::MAX as usize {
        return Err(PdfError::PageNumberOverflow);
    }
    if let Some(i) = find_nul(pdf_path) {
        return Err(PdfError::Nul(i));
    }
    let pdf_cstr = with_nul(pdf_path);
    Ok(PagePlan { pdf_cstr, page: page_number as i32 })
}

/// Relies on `String::from_utf8`: succeeds exactly on valid UTF-8 input,
/// yielding its decoding; on failure, the error's `valid_up_to` bounds a
/// valid prefix.
#[verifier::external_body]
fn string_from_utf8(bytes: Vec<u8>) -> (r: Result<String, usize>)
    ensures
        match r {
            Ok(s) => valid_utf8(bytes@) && s@ == decode_utf8(bytes@),
            Err(i) => {
                &&& !valid_utf8(bytes@)
                &&& i <= bytes@.len()
                &&& valid_utf8(bytes@.subrange(0, i as int))
            },
        },
{
    String::from_utf8(bytes).map_err(|e| e.utf8_error().valid_up_to())
}

/// Judges the single-page native call's outcome, handed in as the copied
/// buffer contents, or `None` where the call returned the null sentinel.
/// A null result is its own failure kind — the single-page entry point has
/// no numeric code — and a non-null buffer is decoded as UTF-8 text or
/// rejected, naming the length of its longest valid prefix.
pub fn interpret_page_result(native: Option<Vec<u8>>) -> (r: Result<String, PdfError>)
    ensures
        match native {
            None => r matches Err(e) && e@ == PdfErrorView::NullResult,
            Some(bytes) => match r {
                Ok(s) => valid_utf8(bytes@) && s@ == decode_utf8(bytes@),
                Err(e) => {
                    &&& !valid_utf8(bytes@)
                    &&& e@ matches PdfErrorView::Utf8(i) && i <= bytes@.len() && valid_utf8(
                        bytes@.subrange(0, i as int),
                    )
                },
            },
        },
{
    match native {
        None => Err(PdfError::NullResult),
        Some(bytes) => match string_from_utf8(bytes) {
            Ok(s) => Ok(s),
            Err(i) => Err(PdfError::Utf8(i)),
        },
    }
}

} // verus!
