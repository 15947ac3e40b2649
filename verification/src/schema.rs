//! The typed content-block model and the schema normalizer.
//!
//! A content block is one unit of extracted page content. The normalizer
//! turns a parsed JSON value into the typed model, reconciling the two
//! legacy bounding-box encodings (a 4-element array and a 4-key object)
//! into one canonical record, and failing with a structured error that
//! names the offending field. Coordinates are carried as IEEE 754 binary64
//! bit patterns and pass through unaltered: no reordering, clamping or
//! other repair is performed.

use vstd::prelude::*;
use crate::errors::{Coord, FieldName, SchemaErr};
use crate::json_value::{lookup, obj_lookup, JsonNum, JsonVal};

verus! {

/// The canonical bounding box: four coordinates in page space, each the
/// bit pattern of the engine's 64-bit binary value, exactly as the payload
/// carried it.
#[derive(Clone, Copy, Debug, PartialEq, Eq, Structural)]
pub struct BBox {
    pub x0: u64,
    pub y0: u64,
    pub x1: u64,
    pub y1: u64,
}

/// One cell of a tabular block.
#[derive(Debug, PartialEq)]
pub struct TableCell {
    pub bbox: BBox,
    pub text: String,
}

/// Mathematical image of a `TableCell`.
pub struct TableCellView {
    pub bbox: BBox,
    pub text: Seq<char>,
}

impl View for TableCell {
    type V = TableCellView;

    open spec fn view(&self) -> TableCellView {
        TableCellView { bbox: self.bbox, text: self.text@ }
    }
}

/// One row of a tabular block.
#[derive(Debug, PartialEq)]
pub struct TableRow {
    pub bbox: BBox,
    pub cells: Vec<TableCell>,
}

/// Mathematical image of a `TableRow`.
pub struct TableRowView {
    pub bbox: BBox,
    pub cells: Seq<TableCellView>,
}

/// The images of a sequence of cells.
pub open spec fn cells_view(cs: Seq<TableCell>) -> Seq<TableCellView> {
    cs.map_values(|c: TableCell| c@)
}

impl View for TableRow {
    type V = TableRowView;

    open spec fn view(&self) -> TableRowView {
        TableRowView { bbox: self.bbox, cells: cells_view(self.cells@) }
    }
}

/// The images of a sequence of rows.
pub open spec fn rows_view(rs: Seq<TableRow>) -> Seq<TableRowView> {
    rs.map_values(|r: TableRow| r@)
}

/// One extracted content block.
///
/// `kind` is an open-ended discriminant: the engine may emit kinds this
/// crate has never seen, so it is an opaque string, not a closed
/// enumeration. Optional fields deserialize to an explicit unset state; a
/// present-but-null value counts as unset. `font_size` alone defaults to
/// the zero bit pattern when absent, for compatibility with older
/// payloads.
#[derive(Debug, PartialEq)]
pub struct Block {
    pub kind: String,
    pub text: String,
    pub bbox: BBox,
    pub font_size: u64,
    pub font_weight: Option<String>,
    pub page_number: i32,
    pub length: usize,
    pub lines: Option<u32>,
    pub confidence: Option<u64>,
    pub row_count: Option<u32>,
    pub col_count: Option<u32>,
    pub cell_count: Option<u32>,
    pub rows: Option<Vec<TableRow>>,
}

/// Mathematical image of a `Block`.
pub struct BlockView {
    pub kind: Seq<char>,
    pub text: Seq<char>,
    pub bbox: BBox,
    pub font_size: u64,
    pub font_weight: Option<Seq<char>>,
    pub page_number: i32,
    pub length: usize,
    pub lines: Option<u32>,
    pub confidence: Option<u64>,
    pub row_count: Option<u32>,
    pub col_count: Option<u32>,
    pub cell_count: Option<u32>,
    pub rows: Option<Seq<TableRowView>>,
}

impl View for Block {
    type V = BlockView;

    open spec fn view(&self) -> BlockView {
        BlockView {
            kind: self.kind@,
            text: self.text@,
            bbox: self.bbox,
            font_size: self.font_size,
            font_weight: match self.font_weight {
                Some(w) => Some(w@),
                None => None,
            },
            page_number: self.page_number,
            length: self.length,
            lines: self.lines,
            confidence: self.confidence,
            row_count: self.row_count,
            col_count: self.col_count,
            cell_count: self.cell_count,
            rows: match self.rows {
                Some(rs) => Some(rows_view(rs@)),
                None => None,
            },
        }
    }
}

/// The images of a sequence of blocks.
pub open spec fn blocks_view(bs: Seq<Block>) -> Seq<BlockView> {
    bs.map_values(|b: Block| b@)
}

// --- The normalizer's mathematical definition ---

/// Whether a JSON value is a number.
pub open spec fn is_num(v: JsonVal) -> bool {
    v matches JsonVal::Num(_)
}

/// The number behind a JSON value; meaningful only under `is_num`.
pub open spec fn num_of(v: JsonVal) -> JsonNum {
    match v {
        JsonVal::Num(n) => n,
        _ => JsonNum { bits: 0, as_u: None, as_i: None },
    }
}

/// The value under `key`, with `Null` standing in for an absent key, so
/// that "missing or not a number" is one condition, as for the legacy
/// object encoding.
pub open spec fn lookup_or_null(fields: Seq<(String, JsonVal)>, key: Seq<char>) -> JsonVal {
    match obj_lookup(fields, key) {
        Some(v) => v,
        None => JsonVal::Null,
    }
}

/// Normalization of the 4-element array encoding `[x0, y0, x1, y1]`. A
/// wrong element count is a shape failure; a non-numeric element names the
/// first offending index.
pub open spec fn arr_bbox(items: Seq<JsonVal>) -> Result<BBox, SchemaErr> {
    if items.len() != 4 {
        Err(SchemaErr::BboxShape)
    } else if !is_num(items[0]) {
        Err(SchemaErr::BboxElem(0))
    } else if !is_num(items[1]) {
        Err(SchemaErr::BboxElem(1))
    } else if !is_num(items[2]) {
        Err(SchemaErr::BboxElem(2))
    } else if !is_num(items[3]) {
        Err(SchemaErr::BboxElem(3))
    } else {
        Ok(BBox {
            x0: num_of(items[0]).bits,
            y0: num_of(items[1]).bits,
            x1: num_of(items[2]).bits,
            y1: num_of(items[3]).bits,
        })
    }
}

/// Normalization of the object encoding `{x0, y0, x1, y1}`. Each of the
/// four keys must be present and numeric; extra keys are ignored. A defect
/// names the first offending coordinate, in the order x0, y0, x1, y1.
pub open spec fn obj_bbox(fields: Seq<(String, JsonVal)>) -> Result<BBox, SchemaErr> {
    if !is_num(lookup_or_null(fields, "x0"@)) {
        Err(SchemaErr::BboxCoord(Coord::X0))
    } else if !is_num(lookup_or_null(fields, "y0"@)) {
        Err(SchemaErr::BboxCoord(Coord::Y0))
    } else if !is_num(lookup_or_null(fields, "x1"@)) {
        Err(SchemaErr::BboxCoord(Coord::X1))
    } else if !is_num(lookup_or_null(fields, "y1"@)) {
        Err(SchemaErr::BboxCoord(Coord::Y1))
    } else {
        Ok(BBox {
            x0: num_of(lookup_or_null(fields, "x0"@)).bits,
            y0: num_of(lookup_or_null(fields, "y0"@)).bits,
            x1: num_of(lookup_or_null(fields, "x1"@)).bits,
            y1: num_of(lookup_or_null(fields, "y1"@)).bits,
        })
    }
}

/// The normalizer's contract for one bounding box: exactly the two legacy
/// encodings are accepted, and both yield the same canonical record for
/// the same coordinate values.
pub open spec fn bbox_norm(v: JsonVal) -> Result<BBox, SchemaErr> {
    match v {
        JsonVal::Arr(items) => arr_bbox(items@),
        JsonVal::Obj(fields) => obj_bbox(fields@),
        _ => Err(SchemaErr::BboxShape),
    }
}

/// The two legacy bounding-box encodings agree: a 4-element array of
/// numbers and an object whose four keys hold the same numbers normalize
/// to the identical canonical record, the coordinates' bit patterns
/// untouched. The object may hold further keys; they change nothing.
pub proof fn lemma_bbox_encodings_agree(
    x0: JsonNum,
    y0: JsonNum,
    x1: JsonNum,
    y1: JsonNum,
    items: Seq<JsonVal>,
    fields: Seq<(String, JsonVal)>,
)
    requires
        items == seq![
            JsonVal::Num(x0),
            JsonVal::Num(y0),
            JsonVal::Num(x1),
            JsonVal::Num(y1),
        ],
        obj_lookup(fields, "x0"@) == Some(JsonVal::Num(x0)),
        obj_lookup(fields, "y0"@) == Some(JsonVal::Num(y0)),
        obj_lookup(fields, "x1"@) == Some(JsonVal::Num(x1)),
        obj_lookup(fields, "y1"@) == Some(JsonVal::Num(y1)),
    ensures
        arr_bbox(items) == obj_bbox(fields),
        arr_bbox(items) == Ok::<BBox, SchemaErr>(
            BBox { x0: x0.bits, y0: y0.bits, x1: x1.bits, y1: y1.bits },
        ),
{
}

/// A bounding-box array of any arity but four is rejected as a shape
/// failure: no element is dropped, none is invented.
pub proof fn lemma_bbox_array_arity(items: Seq<JsonVal>)
    requires
        items.len() != 4,
    ensures
        arr_bbox(items) == Err::<BBox, SchemaErr>(SchemaErr::BboxShape),
{
}

/// A non-numeric element of a 4-element bounding-box array is rejected,
/// naming the first offending index; no default is substituted.
pub proof fn lemma_bbox_array_not_number(items: Seq<JsonVal>, i: int)
    requires
        items.len() == 4,
        0 <= i < 4,
        !is_num(items[i]),
        forall|j: int| 0 <= j < i ==> is_num(#[trigger] items[j]),
    ensures
        arr_bbox(items) == Err::<BBox, SchemaErr>(SchemaErr::BboxElem(i as u32)),
{
}

/// A bounding-box object with a missing or non-numeric coordinate is
/// rejected, naming a coordinate; no default is substituted.
pub proof fn lemma_bbox_object_defect(fields: Seq<(String, JsonVal)>)
    requires
        !is_num(lookup_or_null(fields, "x0"@)) || !is_num(lookup_or_null(fields, "y0"@))
            || !is_num(lookup_or_null(fields, "x1"@)) || !is_num(lookup_or_null(fields, "y1"@)),
    ensures
        obj_bbox(fields) matches Err(e) && e matches SchemaErr::BboxCoord(_),
{
}

/// A required string field: absent is a missing-field failure, any
/// non-string value a wrong-type failure.
pub open spec fn req_str_field(
    fields: Seq<(String, JsonVal)>,
    key: Seq<char>,
    f: FieldName,
) -> Result<Seq<char>, SchemaErr> {
    match obj_lookup(fields, key) {
        None => Err(SchemaErr::Missing(f)),
        Some(JsonVal::Str(s)) => Ok(s@),
        Some(_) => Err(SchemaErr::Wrong(f)),
    }
}

/// An optional string field: absent or null is unset.
pub open spec fn opt_str_field(
    fields: Seq<(String, JsonVal)>,
    key: Seq<char>,
    f: FieldName,
) -> Result<Option<Seq<char>>, SchemaErr> {
    match obj_lookup(fields, key) {
        None => Ok(None),
        Some(JsonVal::Null) => Ok(None),
        Some(JsonVal::Str(s)) => Ok(Some(s@)),
        Some(_) => Err(SchemaErr::Wrong(f)),
    }
}

/// An optional unsigned count field: absent or null is unset; a number
/// that is not an integer of the unsigned 32-bit range is a wrong-type
/// failure.
pub open spec fn opt_u32_field(
    fields: Seq<(String, JsonVal)>,
    key: Seq<char>,
    f: FieldName,
) -> Result<Option<u32>, SchemaErr> {
    match obj_lookup(fields, key) {
        None => Ok(None),
        Some(JsonVal::Null) => Ok(None),
        Some(JsonVal::Num(n)) => match n.as_u {
            Some(u) => if u <= u32::MAX as u64 {
                Ok(Some(u as u32))
            } else {
                Err(SchemaErr::Wrong(f))
            },
            None => Err(SchemaErr::Wrong(f)),
        },
        Some(_) => Err(SchemaErr::Wrong(f)),
    }
}

/// The `font_size` field: absent or null defaults to the zero bit pattern;
/// any other non-numeric value is a wrong-type failure.
pub open spec fn font_size_field(fields: Seq<(String, JsonVal)>) -> Result<u64, SchemaErr> {
    match obj_lookup(fields, "font_size"@) {
        None => Ok(0),
        Some(JsonVal::Null) => Ok(0),
        Some(JsonVal::Num(n)) => Ok(n.bits),
        Some(_) => Err(SchemaErr::Wrong(FieldName::FontSize)),
    }
}

/// The `confidence` field: an optional number, carried through as its bit
/// pattern, with no normalization.
pub open spec fn confidence_field(fields: Seq<(String, JsonVal)>) -> Result<
    Option<u64>,
    SchemaErr,
> {
    match obj_lookup(fields, "confidence"@) {
        None => Ok(None),
        Some(JsonVal::Null) => Ok(None),
        Some(JsonVal::Num(n)) => Ok(Some(n.bits)),
        Some(_) => Err(SchemaErr::Wrong(FieldName::Confidence)),
    }
}

/// The required `page_number` field: an integer of the signed 32-bit
/// range, the native engine's page convention.
pub open spec fn page_number_field(fields: Seq<(String, JsonVal)>) -> Result<i32, SchemaErr> {
    match obj_lookup(fields, "page_number"@) {
        None => Err(SchemaErr::Missing(FieldName::PageNumber)),
        Some(JsonVal::Num(n)) => match n.as_i {
            Some(i) => if i32::MIN as i64 <= i && i <= i32::MAX as i64 {
                Ok(i as i32)
            } else {
                Err(SchemaErr::Wrong(FieldName::PageNumber))
            },
            None => Err(SchemaErr::Wrong(FieldName::PageNumber)),
        },
        Some(_) => Err(SchemaErr::Wrong(FieldName::PageNumber)),
    }
}

/// The required `length` field: the engine-supplied content length, a
/// nonnegative integer that fits the machine's word.
pub open spec fn length_field(fields: Seq<(String, JsonVal)>) -> Result<usize, SchemaErr> {
    match obj_lookup(fields, "length"@) {
        None => Err(SchemaErr::Missing(FieldName::Length)),
        Some(JsonVal::Num(n)) => match n.as_u {
            Some(u) => if u <= usize::MAX as u64 {
                Ok(u as usize)
            } else {
                Err(SchemaErr::Wrong(FieldName::Length))
            },
            None => Err(SchemaErr::Wrong(FieldName::Length)),
        },
        Some(_) => Err(SchemaErr::Wrong(FieldName::Length)),
    }
}

/// The required `bbox` field of a block, row or cell record: present, and
/// normalized by the bounding-box contract.
pub open spec fn bbox_field(fields: Seq<(String, JsonVal)>) -> Result<BBox, SchemaErr> {
    match obj_lookup(fields, "bbox"@) {
        None => Err(SchemaErr::Missing(FieldName::Bbox)),
        Some(v) => bbox_norm(v),
    }
}

/// Normalization of one table cell: an object with a bounding box and its
/// text.
pub open spec fn cell_norm(v: JsonVal) -> Result<TableCellView, SchemaErr> {
    match v {
        JsonVal::Obj(fields) => match bbox_field(fields@) {
            Err(e) => Err(e),
            Ok(bbox) => match req_str_field(fields@, "text"@, FieldName::Text) {
                Err(e) => Err(e),
                Ok(text) => Ok(TableCellView { bbox, text }),
            },
        },
        _ => Err(SchemaErr::Wrong(FieldName::Cells)),
    }
}

/// Normalization of a sequence of cells, left to right; the first defect
/// aborts the row.
pub open spec fn cells_norm(items: Seq<JsonVal>) -> Result<Seq<TableCellView>, SchemaErr>
    decreases items.len(),
{
    if items.len() == 0 {
        Ok(Seq::empty())
    } else {
        match cell_norm(items[0]) {
            Err(e) => Err(e),
            Ok(c) => match cells_norm(items.drop_first()) {
                Err(e) => Err(e),
                Ok(rest) => Ok(seq![c] + rest),
            },
        }
    }
}

/// Normalization of one table row: an object with a bounding box and a
/// `cells` array.
pub open spec fn row_norm(v: JsonVal) -> Result<TableRowView, SchemaErr> {
    match v {
        JsonVal::Obj(fields) => match bbox_field(fields@) {
            Err(e) => Err(e),
            Ok(bbox) => match obj_lookup(fields@, "cells"@) {
                None => Err(SchemaErr::Missing(FieldName::Cells)),
                Some(JsonVal::Arr(items)) => match cells_norm(items@) {
                    Err(e) => Err(e),
                    Ok(cells) => Ok(TableRowView { bbox, cells }),
                },
                Some(_) => Err(SchemaErr::Wrong(FieldName::Cells)),
            },
        },
        _ => Err(SchemaErr::Wrong(FieldName::Rows)),
    }
}

/// Normalization of a sequence of rows, left to right; the first defect
/// aborts the block.
pub open spec fn rows_norm(items: Seq<JsonVal>) -> Result<Seq<TableRowView>, SchemaErr>
    decreases items.len(),
{
    if items.len() == 0 {
        Ok(Seq::empty())
    } else {
        match row_norm(items[0]) {
            Err(e) => Err(e),
            Ok(r) => match rows_norm(items.drop_first()) {
                Err(e) => Err(e),
                Ok(rest) => Ok(seq![r] + rest),
            },
        }
    }
}

/// The optional `rows` field: absent or null is unset; otherwise an array
/// of rows, each normalized.
pub open spec fn rows_field(fields: Seq<(String, JsonVal)>) -> Result<
    Option<Seq<TableRowView>>,
    SchemaErr,
> {
    match obj_lookup(fields, "rows"@) {
        None => Ok(None),
        Some(JsonVal::Null) => Ok(None),
        Some(JsonVal::Arr(items)) => match rows_norm(items@) {
            Err(e) => Err(e),
            Ok(rs) => Ok(Some(rs)),
        },
        Some(_) => Err(SchemaErr::Wrong(FieldName::Rows)),
    }
}

/// Normalization of the fields of one block record, in a fixed order; the
/// first defect names the block's offending field.
pub open spec fn block_fields_norm(fs: Seq<(String, JsonVal)>) -> Result<BlockView, SchemaErr> {
    match req_str_field(fs, "type"@, FieldName::Kind) {
        Err(e) => Err(e),
        Ok(kind) => match req_str_field(fs, "text"@, FieldName::Text) {
            Err(e) => Err(e),
            Ok(text) => match bbox_field(fs) {
                Err(e) => Err(e),
                Ok(bbox) => match font_size_field(fs) {
                    Err(e) => Err(e),
                    Ok(font_size) => match opt_str_field(
                        fs,
                        "font_weight"@,
                        FieldName::FontWeight,
                    ) {
                        Err(e) => Err(e),
                        Ok(font_weight) => match page_number_field(fs) {
                            Err(e) => Err(e),
                            Ok(page_number) => match length_field(fs) {
                                Err(e) => Err(e),
                                Ok(length) => match opt_u32_field(fs, "lines"@, FieldName::Lines) {
                                    Err(e) => Err(e),
                                    Ok(lines) => match confidence_field(fs) {
                                        Err(e) => Err(e),
                                        Ok(confidence) => match opt_u32_field(
                                            fs,
                                            "row_count"@,
                                            FieldName::RowCount,
                                        ) {
                                            Err(e) => Err(e),
                                            Ok(row_count) => match opt_u32_field(
                                                fs,
                                                "col_count"@,
                                                FieldName::ColCount,
                                            ) {
                                                Err(e) => Err(e),
                                                Ok(col_count) => match opt_u32_field(
                                                    fs,
                                                    "cell_count"@,
                                                    FieldName::CellCount,
                                                ) {
                                                    Err(e) => Err(e),
                                                    Ok(cell_count) => match rows_field(fs) {
                                                        Err(e) => Err(e),
                                                        Ok(rows) => Ok(
                                                            BlockView {
                                                                kind,
                                                                text,
                                                                bbox,
                                                                font_size,
                                                                font_weight,
                                                                page_number,
                                                                length,
                                                                lines,
                                                                confidence,
                                                                row_count,
                                                                col_count,
                                                                cell_count,
                                                                rows,
                                                            },
                                                        ),
                                                    },
                                                },
                                            },
                                        },
                                    },
                                },
                            },
                        },
                    },
                },
            },
        },
    }
}

/// Normalization of one block: a JSON object, else a shape failure.
pub open spec fn block_norm(v: JsonVal) -> Result<BlockView, SchemaErr> {
    match v {
        JsonVal::Obj(fields) => block_fields_norm(fields@),
        _ => Err(SchemaErr::BlockShape),
    }
}

/// Normalization of a sequence of blocks, left to right; one bad block
/// aborts the whole payload.
pub open spec fn blocks_norm(items: Seq<JsonVal>) -> Result<Seq<BlockView>, SchemaErr>
    decreases items.len(),
{
    if items.len() == 0 {
        Ok(Seq::empty())
    } else {
        match block_norm(items[0]) {
            Err(e) => Err(e),
            Ok(b) => match blocks_norm(items.drop_first()) {
                Err(e) => Err(e),
                Ok(rest) => Ok(seq![b] + rest),
            },
        }
    }
}

/// Normalization of a whole payload value: an ordered array of blocks.
pub open spec fn doc_norm(v: JsonVal) -> Result<Seq<BlockView>, SchemaErr> {
    match v {
        JsonVal::Arr(items) => blocks_norm(items@),
        _ => Err(SchemaErr::DocShape),
    }
}

// --- The executable normalizer ---

/// Normalizes one bounding-box value into the canonical record.
pub fn bbox_from_value(v: &JsonVal) -> (r: Result<BBox, SchemaErr>)
    ensures
        r == bbox_norm(*v),
{
    match v {
        JsonVal::Arr(items) => {
            if items.len() != 4 {
                return Err(SchemaErr::BboxShape);
            }
            let x0 = match &items[0] {
                JsonVal::Num(n) => n.bits,
                _ => return Err(SchemaErr::BboxElem(0)),
            };
            let y0 = match &items[1] {
                JsonVal::Num(n) => n.bits,
                _ => return Err(SchemaErr::BboxElem(1)),
            };
            let x1 = match &items[2] {
                JsonVal::Num(n) => n.bits,
                _ => return Err(SchemaErr::BboxElem(2)),
            };
            let y1 = match &items[3] {
                JsonVal::Num(n) => n.bits,
                _ => return Err(SchemaErr::BboxElem(3)),
            };
            Ok(BBox { x0, y0, x1, y1 })
        },
        JsonVal::Obj(fields) => {
            let x0 = match lookup(fields, &"x0".to_owned()) {
                Some(JsonVal::Num(n)) => n.bits,
                _ => return Err(SchemaErr::BboxCoord(Coord::X0)),
            };
            let y0 = match lookup(fields, &"y0".to_owned()) {
                Some(JsonVal::Num(n)) => n.bits,
                _ => return Err(SchemaErr::BboxCoord(Coord::Y0)),
            };
            let x1 = match lookup(fields, &"x1".to_owned()) {
                Some(JsonVal::Num(n)) => n.bits,
                _ => return Err(SchemaErr::BboxCoord(Coord::X1)),
            };
            let y1 = match lookup(fields, &"y1".to_owned()) {
                Some(JsonVal::Num(n)) => n.bits,
                _ => return Err(SchemaErr::BboxCoord(Coord::Y1)),
            };
            Ok(BBox { x0, y0, x1, y1 })
        },
        _ => Err(SchemaErr::BboxShape),
    }
}

/// Extracts a required string field.
fn get_req_str(fields: &Vec<(String, JsonVal)>, key: &String, f: FieldName) -> (r: Result<
    String,
    SchemaErr,
>)
    ensures
        match r {
            Ok(s) => req_str_field(fields@, key@, f) == Ok::<Seq<char>, SchemaErr>(s@),
            Err(e) => req_str_field(fields@, key@, f) == Err::<Seq<char>, SchemaErr>(e),
        },
{
    match lookup(fields, key) {
        None => Err(SchemaErr::Missing(f)),
        Some(JsonVal::Str(s)) => Ok(s.clone()),
        Some(_) => Err(SchemaErr::Wrong(f)),
    }
}

/// The image of an optional string.
pub open spec fn opt_str_view(o: Option<String>) -> Option<Seq<char>> {
    match o {
        Some(s) => Some(s@),
        None => None,
    }
}

/// Extracts an optional string field; absent or null is unset.
fn get_opt_str(fields: &Vec<(String, JsonVal)>, key: &String, f: FieldName) -> (r: Result<
    Option<String>,
    SchemaErr,
>)
    ensures
        match r {
            Ok(o) => opt_str_field(fields@, key@, f) == Ok::<Option<Seq<char>>, SchemaErr>(
                opt_str_view(o),
            ),
            Err(e) => opt_str_field(fields@, key@, f) == Err::<Option<Seq<char>>, SchemaErr>(e),
        },
{
    match lookup(fields, key) {
        None => Ok(None),
        Some(JsonVal::Null) => Ok(None),
        Some(JsonVal::Str(s)) => Ok(Some(s.clone())),
        Some(_) => Err(SchemaErr::Wrong(f)),
    }
}

/// Extracts an optional unsigned count field; absent or null is unset.
fn get_opt_u32(fields: &Vec<(String, JsonVal)>, key: &String, f: FieldName) -> (r: Result<
    Option<u32>,
    SchemaErr,
>)
    ensures
        r == opt_u32_field(fields@, key@, f),
{
    match lookup(fields, key) {
        None => Ok(None),
        Some(JsonVal::Null) => Ok(None),
        Some(JsonVal::Num(n)) => match n.as_u {
            Some(u) => if u <= u32::MAX as u64 {
                Ok(Some(u as u32))
            } else {
                Err(SchemaErr::Wrong(f))
            },
            None => Err(SchemaErr::Wrong(f)),
        },
        Some(_) => Err(SchemaErr::Wrong(f)),
    }
}

/// Extracts the `font_size` field, defaulting to the zero bit pattern.
fn get_font_size(fields: &Vec<(String, JsonVal)>) -> (r: Result<u64, SchemaErr>)
    ensures
        r == font_size_field(fields@),
{
    match lookup(fields, &"font_size".to_owned()) {
        None => Ok(0),
        Some(JsonVal::Null) => Ok(0),
        Some(JsonVal::Num(n)) => Ok(n.bits),
        Some(_) => Err(SchemaErr::Wrong(FieldName::FontSize)),
    }
}

/// Extracts the optional `confidence` field.
fn get_confidence(fields: &Vec<(String, JsonVal)>) -> (r: Result<Option<u64>, SchemaErr>)
    ensures
        r == confidence_field(fields@),
{
    match lookup(fields, &"confidence".to_owned()) {
        None => Ok(None),
        Some(JsonVal::Null) => Ok(None),
        Some(JsonVal::Num(n)) => Ok(Some(n.bits)),
        Some(_) => Err(SchemaErr::Wrong(FieldName::Confidence)),
    }
}

/// Extracts the required `page_number` field.
fn get_page_number(fields: &Vec<(String, JsonVal)>) -> (r: Result<i32, SchemaErr>)
    ensures
        r == page_number_field(fields@),
{
    match lookup(fields, &"page_number".to_owned()) {
        None => Err(SchemaErr::Missing(FieldName::PageNumber)),
        Some(JsonVal::Num(n)) => match n.as_i {
            Some(i) => if i32::MIN as i64 <= i && i <= i32::MAX as i64 {
                Ok(i as i32)
            } else {
                Err(SchemaErr::Wrong(FieldName::PageNumber))
            },
            None => Err(SchemaErr::Wrong(FieldName::PageNumber)),
        },
        Some(_) => Err(SchemaErr::Wrong(FieldName::PageNumber)),
    }
}

/// Extracts the required `length` field.
fn get_length(fields: &Vec<(String, JsonVal)>) -> (r: Result<usize, SchemaErr>)
    ensures
        r == length_field(fields@),
{
    match lookup(fields, &"length".to_owned()) {
        None => Err(SchemaErr::Missing(FieldName::Length)),
        Some(JsonVal::Num(n)) => match n.as_u {
            Some(u) => if u <= usize::MAX as u64 {
                Ok(u as usize)
            } else {
                Err(SchemaErr::Wrong(FieldName::Length))
            },
            None => Err(SchemaErr::Wrong(FieldName::Length)),
        },
        Some(_) => Err(SchemaErr::Wrong(FieldName::Length)),
    }
}

/// Extracts the required `bbox` field of a block, row or cell record.
fn get_bbox(fields: &Vec<(String, JsonVal)>) -> (r: Result<BBox, SchemaErr>)
    ensures
        r == bbox_field(fields@),
{
    match lookup(fields, &"bbox".to_owned()) {
        None => Err(SchemaErr::Missing(FieldName::Bbox)),
        Some(v) => bbox_from_value(v),
    }
}

/// Normalizes one table cell.
fn cell_from_value(v: &JsonVal) -> (r: Result<TableCell, SchemaErr>)
    ensures
        match r {
            Ok(c) => cell_norm(*v) == Ok::<TableCellView, SchemaErr>(c@),
            Err(e) => cell_norm(*v) == Err::<TableCellView, SchemaErr>(e),
        },
{
    match v {
        JsonVal::Obj(fields) => {
            let bbox = match get_bbox(fields) {
                Ok(b) => b,
                Err(e) => return Err(e),
            };
            let text = match get_req_str(fields, &"text".to_owned(), FieldName::Text) {
                Ok(s) => s,
                Err(e) => return Err(e),
            };
            Ok(TableCell { bbox, text })
        },
        _ => Err(SchemaErr::Wrong(FieldName::Cells)),
    }
}

/// Normalizes an array of table cells, left to right.
fn cells_from_values(items: &Vec<JsonVal>) -> (r: Result<Vec<TableCell>, SchemaErr>)
    ensures
        match r {
            Ok(cs) => cells_norm(items@) == Ok::<Seq<TableCellView>, SchemaErr>(cells_view(cs@)),
            Err(e) => cells_norm(items@) == Err::<Seq<TableCellView>, SchemaErr>(e),
        },
{
    let n = items.len();
    let mut out: Vec<TableCell> = Vec::new();
    let mut i: usize = 0;
    proof {
        assert(items@.skip(0) =~= items@);
        match cells_norm(items@) {
            Ok(rest) => {
                assert(cells_view(out@) + rest =~= rest);
            },
            Err(_) => {},
        }
    }
    while i < n
        invariant
            i <= n,
            n == items@.len(),
            cells_norm(items@) == (match cells_norm(items@.skip(i as int)) {
                Ok(rest) => Ok::<Seq<TableCellView>, SchemaErr>(cells_view(out@) + rest),
                Err(e) => Err::<Seq<TableCellView>, SchemaErr>(e),
            }),
        decreases n - i,
    {
        proof {
            assert(items@.skip(i as int)[0] == items@[i as int]);
            assert(items@.skip(i as int).drop_first() =~= items@.skip(i as int + 1));
        }
        match cell_from_value(&items[i]) {
            Err(e) => {
                return Err(e);
            },
            Ok(c) => {
                let ghost pre = cells_view(out@);
                let ghost cv = c@;
                out.push(c);
                proof {
                    assert(cells_view(out@) =~= pre.push(cv));
                    match cells_norm(items@.skip(i as int + 1)) {
                        Ok(rest) => {
                            assert(pre + (seq![cv] + rest) =~= pre.push(cv) + rest);
                        },
                        Err(_) => {},
                    }
                }
            },
        }
        i = i + 1;
    }
    proof {
        assert(items@.skip(n as int) =~= Seq::<JsonVal>::empty());
    }
    Ok(out)
}

/// Normalizes one table row.
fn row_from_value(v: &JsonVal) -> (r: Result<TableRow, SchemaErr>)
    ensures
        match r {
            Ok(row) => row_norm(*v) == Ok::<TableRowView, SchemaErr>(row@),
            Err(e) => row_norm(*v) == Err::<TableRowView, SchemaErr>(e),
        },
{
    match v {
        JsonVal::Obj(fields) => {
            let bbox = match get_bbox(fields) {
                Ok(b) => b,
                Err(e) => return Err(e),
            };
            match lookup(fields, &"cells".to_owned()) {
                None => Err(SchemaErr::Missing(FieldName::Cells)),
                Some(JsonVal::Arr(items)) => match cells_from_values(items) {
                    Ok(cells) => Ok(TableRow { bbox, cells }),
                    Err(e) => Err(e),
                },
                Some(_) => Err(SchemaErr::Wrong(FieldName::Cells)),
            }
        },
        _ => Err(SchemaErr::Wrong(FieldName::Rows)),
    }
}

/// Normalizes an array of table rows, left to right.
fn rows_from_values(items: &Vec<JsonVal>) -> (r: Result<Vec<TableRow>, SchemaErr>)
    ensures
        match r {
            Ok(rs) => rows_norm(items@) == Ok::<Seq<TableRowView>, SchemaErr>(rows_view(rs@)),
            Err(e) => rows_norm(items@) == Err::<Seq<TableRowView>, SchemaErr>(e),
        },
{
    let n = items.len();
    let mut out: Vec<TableRow> = Vec::new();
    let mut i: usize = 0;
    proof {
        assert(items@.skip(0) =~= items@);
        match rows_norm(items@) {
            Ok(rest) => {
                assert(rows_view(out@) + rest =~= rest);
            },
            Err(_) => {},
        }
    }
    while i < n
        invariant
            i <= n,
            n == items@.len(),
            rows_norm(items@) == (match rows_norm(items@.skip(i as int)) {
                Ok(rest) => Ok::<Seq<TableRowView>, SchemaErr>(rows_view(out@) + rest),
                Err(e) => Err::<Seq<TableRowView>, SchemaErr>(e),
            }),
        decreases n - i,
    {
        proof {
            assert(items@.skip(i as int)[0] == items@[i as int]);
            assert(items@.skip(i as int).drop_first() =~= items@.skip(i as int + 1));
        }
        match row_from_value(&items[i]) {
            Err(e) => {
                return Err(e);
            },
            Ok(row) => {
                let ghost pre = rows_view(out@);
                let ghost rv = row@;
                out.push(row);
                proof {
                    assert(rows_view(out@) =~= pre.push(rv));
                    match rows_norm(items@.skip(i as int + 1)) {
                        Ok(rest) => {
                            assert(pre + (seq![rv] + rest) =~= pre.push(rv) + rest);
                        },
                        Err(_) => {},
                    }
                }
            },
        }
        i = i + 1;
    }
    proof {
        assert(items@.skip(n as int) =~= Seq::<JsonVal>::empty());
    }
    Ok(out)
}

/// The image of an optional row vector.
pub open spec fn opt_rows_view(o: Option<Vec<TableRow>>) -> Option<Seq<TableRowView>> {
    match o {
        Some(rs) => Some(rows_view(rs@)),
        None => None,
    }
}

/// Extracts the optional `rows` field; absent or null is unset.
fn get_rows(fields: &Vec<(String, JsonVal)>) -> (r: Result<Option<Vec<TableRow>>, SchemaErr>)
    ensures
        match r {
            Ok(o) => rows_field(fields@) == Ok::<Option<Seq<TableRowView>>, SchemaErr>(
                opt_rows_view(o),
            ),
            Err(e) => rows_field(fields@) == Err::<Option<Seq<TableRowView>>, SchemaErr>(e),
        },
{
    match lookup(fields, &"rows".to_owned()) {
        None => Ok(None),
        Some(JsonVal::Null) => Ok(None),
        Some(JsonVal::Arr(items)) => match rows_from_values(items) {
            Ok(rs) => Ok(Some(rs)),
            Err(e) => Err(e),
        },
        Some(_) => Err(SchemaErr::Wrong(FieldName::Rows)),
    }
}

/// Normalizes one block record.
pub fn block_from_value(v: &JsonVal) -> (r: Result<Block, SchemaErr>)
    ensures
        match r {
            Ok(b) => block_norm(*v) == Ok::<BlockView, SchemaErr>(b@),
            Err(e) => block_norm(*v) == Err::<BlockView, SchemaErr>(e),
        },
{
    match v {
        JsonVal::Obj(fields) => {
            let kind = match get_req_str(fields, &"type".to_owned(), FieldName::Kind) {
                Ok(s) => s,
                Err(e) => return Err(e),
            };
            let text = match get_req_str(fields, &"text".to_owned(), FieldName::Text) {
                Ok(s) => s,
                Err(e) => return Err(e),
            };
            let bbox = match get_bbox(fields) {
                Ok(b) => b,
                Err(e) => return Err(e),
            };
            let font_size = match get_font_size(fields) {
                Ok(x) => x,
                Err(e) => return Err(e),
            };
            let font_weight = match get_opt_str(
                fields,
                &"font_weight".to_owned(),
                FieldName::FontWeight,
            ) {
                Ok(o) => o,
                Err(e) => return Err(e),
            };
            let page_number = match get_page_number(fields) {
                Ok(x) => x,
                Err(e) => return Err(e),
            };
            let length = match get_length(fields) {
                Ok(x) => x,
                Err(e) => return Err(e),
            };
            let lines = match get_opt_u32(fields, &"lines".to_owned(), FieldName::Lines) {
                Ok(o) => o,
                Err(e) => return Err(e),
            };
            let confidence = match get_confidence(fields) {
                Ok(o) => o,
                Err(e) => return Err(e),
            };
            let row_count = match get_opt_u32(fields, &"row_count".to_owned(), FieldName::RowCount) {
                Ok(o) => o,
                Err(e) => return Err(e),
            };
            let col_count = match get_opt_u32(fields, &"col_count".to_owned(), FieldName::ColCount) {
                Ok(o) => o,
                Err(e) => return Err(e),
            };
            let cell_count = match get_opt_u32(
                fields,
                &"cell_count".to_owned(),
                FieldName::CellCount,
            ) {
                Ok(o) => o,
                Err(e) => return Err(e),
            };
            let rows = match get_rows(fields) {
                Ok(o) => o,
                Err(e) => return Err(e),
            };
            Ok(Block {
                kind,
                text,
                bbox,
                font_size,
                font_weight,
                page_number,
                length,
                lines,
                confidence,
                row_count,
                col_count,
                cell_count,
                rows,
            })
        },
        _ => Err(SchemaErr::BlockShape),
    }
}

/// Normalizes an array of block values, left to right.
fn blocks_from_values(items: &Vec<JsonVal>) -> (r: Result<Vec<Block>, SchemaErr>)
    ensures
        match r {
            Ok(bs) => blocks_norm(items@) == Ok::<Seq<BlockView>, SchemaErr>(blocks_view(bs@)),
            Err(e) => blocks_norm(items@) == Err::<Seq<BlockView>, SchemaErr>(e),
        },
{
    let n = items.len();
    let mut out: Vec<Block> = Vec::new();
    let mut i: usize = 0;
    proof {
        assert(items@.skip(0) =~= items@);
        match blocks_norm(items@) {
            Ok(rest) => {
                assert(blocks_view(out@) + rest =~= rest);
            },
            Err(_) => {},
        }
    }
    while i < n
        invariant
            i <= n,
            n == items@.len(),
            blocks_norm(items@) == (match blocks_norm(items@.skip(i as int)) {
                Ok(rest) => Ok::<Seq<BlockView>, SchemaErr>(blocks_view(out@) + rest),
                Err(e) => Err::<Seq<BlockView>, SchemaErr>(e),
            }),
        decreases n - i,
    {
        proof {
            assert(items@.skip(i as int)[0] == items@[i as int]);
            assert(items@.skip(i as int).drop_first() =~= items@.skip(i as int + 1));
        }
        match block_from_value(&items[i]) {
            Err(e) => {
                return Err(e);
            },
            Ok(b) => {
                let ghost pre = blocks_view(out@);
                let ghost bv = b@;
                out.push(b);
                proof {
                    assert(blocks_view(out@) =~= pre.push(bv));
                    match blocks_norm(items@.skip(i as int + 1)) {
                        Ok(rest) => {
                            assert(pre + (seq![bv] + rest) =~= pre.push(bv) + rest);
                        },
                        Err(_) => {},
                    }
                }
            },
        }
        i = i + 1;
    }
    proof {
        assert(items@.skip(n as int) =~= Seq::<JsonVal>::empty());
    }
    Ok(out)
}

/// Normalizes a whole payload value into the ordered block collection.
pub fn blocks_from_value(v: &JsonVal) -> (r: Result<Vec<Block>, SchemaErr>)
    ensures
        match r {
            Ok(bs) => doc_norm(*v) == Ok::<Seq<BlockView>, SchemaErr>(blocks_view(bs@)),
            Err(e) => doc_norm(*v) == Err::<Seq<BlockView>, SchemaErr>(e),
        },
{
    match v {
        JsonVal::Arr(items) => blocks_from_values(items),
        _ => Err(SchemaErr::DocShape),
    }
}

} // verus!
