//! The error taxonomy of the boundary layer.
//!
//! Every failure is a typed value: native failure codes are carried verbatim,
//! filesystem failures carry the raw OS error code, and payload-shape
//! failures name the offending field or coordinate.

use vstd::prelude::*;

verus! {

/// One of the four canonical bounding-box coordinates, used by shape
/// failures to say which coordinate a defect concerns.
#[derive(Clone, Copy, Debug, PartialEq, Eq, Structural)]
pub enum Coord {
    X0,
    Y0,
    X1,
    Y1,
}

/// A field of the content-block record, named so that a shape failure can
/// point at the defect instead of reporting a bare parse error.
#[derive(Clone, Copy, Debug, PartialEq, Eq, Structural)]
pub enum FieldName {
    Kind,
    Text,
    Bbox,
    FontSize,
    FontWeight,
    PageNumber,
    Length,
    Lines,
    Confidence,
    RowCount,
    ColCount,
    CellCount,
    Rows,
    Cells,
}

/// A structured payload-shape failure produced by the schema normalizer.
#[derive(Clone, Copy, Debug, PartialEq, Eq, Structural)]
pub enum SchemaErr {
    /// The payload text is not well-formed JSON at all.
    Syntax,
    /// The top-level value of a document payload is not an array of blocks.
    DocShape,
    /// A block value is not a JSON object.
    BlockShape,
    /// A bounding box is neither a 4-element array nor a JSON object.
    BboxShape,
    /// Element `i` of a 4-element bounding-box array is not a number.
    BboxElem(u32),
    /// The named key of a bounding-box object is missing or not a number.
    BboxCoord(Coord),
    /// A required field of a block record is absent.
    Missing(FieldName),
    /// A field is present but has the wrong type, or an integer field does
    /// not fit its declared range.
    Wrong(FieldName),
}

/// Every failure the boundary layer can return.
#[derive(Debug)]
pub enum PdfError {
    /// A path handed to the native boundary holds an embedded NUL byte at
    /// the carried position, so it cannot become a C string.
    Nul(usize),
    /// The native whole-document call returned this nonzero code.
    CError(i32),
    /// A filesystem operation failed; carries the raw OS error code when
    /// the operating system supplied one.
    Io(Option<i32>),
    /// The bytes returned by the native single-page call are not valid
    /// UTF-8; carries the length of the longest valid prefix.
    Utf8(usize),
    /// The payload parsed or deserialized wrongly; the payload says where.
    Json(SchemaErr),
    /// The native single-page call returned the null sentinel.
    NullResult,
    /// The input PDF path does not exist as a readable file; carries the
    /// path bytes.
    MissingInput(Vec<u8>),
    /// The requested page number exceeds the native entry point's signed
    /// 32-bit range.
    PageNumberOverflow,
}

/// Mathematical image of a `PdfError`, with byte strings as sequences.
pub enum PdfErrorView {
    Nul(usize),
    CError(i32),
    Io(Option<i32>),
    Utf8(usize),
    Json(SchemaErr),
    NullResult,
    MissingInput(Seq<u8>),
    PageNumberOverflow,
}

impl View for PdfError {
    type V = PdfErrorView;

    open spec fn view(&self) -> PdfErrorView {
        match self {
            PdfError::Nul(p) => PdfErrorView::Nul(*p),
            PdfError::CError(c) => PdfErrorView::CError(*c),
            PdfError::Io(c) => PdfErrorView::Io(*c),
            PdfError::Utf8(p) => PdfErrorView::Utf8(*p),
            PdfError::Json(s) => PdfErrorView::Json(*s),
            PdfError::NullResult => PdfErrorView::NullResult,
            PdfError::MissingInput(p) => PdfErrorView::MissingInput(p@),
            PdfError::PageNumberOverflow => PdfErrorView::PageNumberOverflow,
        }
    }
}

} // verus!
