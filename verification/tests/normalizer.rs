use pymupdf4llm_c::errors::{Coord, FieldName, PdfError, SchemaErr};
use pymupdf4llm_c::json_value::{JsonNum, JsonVal};
use pymupdf4llm_c::schema::{bbox_from_value, block_from_value, blocks_from_value, BBox};
use pymupdf4llm_c::aggregate::blocks_from_json;

fn float_num(x: f64) -> JsonVal {
    JsonVal::Num(JsonNum { bits: x.to_bits(), as_u: None, as_i: None })
}

fn int_num(i: i64) -> JsonVal {
    JsonVal::Num(JsonNum {
        bits: (i as f64).to_bits(),
        as_u: if i >= 0 { Some(i as u64) } else { None },
        as_i: Some(i),
    })
}

fn s(text: &str) -> JsonVal {
    JsonVal::Str(text.to_owned())
}

fn obj(fields: Vec<(&str, JsonVal)>) -> JsonVal {
    JsonVal::Obj(fields.into_iter().map(|(k, v)| (k.to_owned(), v)).collect())
}

fn bbox_obj(x0: f64, y0: f64, x1: f64, y1: f64) -> JsonVal {
    obj(vec![
        ("x0", float_num(x0)),
        ("y0", float_num(y0)),
        ("x1", float_num(x1)),
        ("y1", float_num(y1)),
    ])
}

fn bbox_arr(x0: f64, y0: f64, x1: f64, y1: f64) -> JsonVal {
    JsonVal::Arr(vec![float_num(x0), float_num(y0), float_num(x1), float_num(y1)])
}

#[test]
fn bbox_array_and_object_agree() {
    let from_arr = bbox_from_value(&bbox_arr(1.5, 2.5, 3.5, 4.5)).unwrap();
    let from_obj = bbox_from_value(&bbox_obj(1.5, 2.5, 3.5, 4.5)).unwrap();
    assert_eq!(from_arr, from_obj);
    assert_eq!(
        from_arr,
        BBox {
            x0: 1.5f64.to_bits(),
            y0: 2.5f64.to_bits(),
            x1: 3.5f64.to_bits(),
            y1: 4.5f64.to_bits(),
        }
    );
}

#[test]
fn bbox_object_extra_keys_ignored() {
    let mut v = vec![
        ("x0", float_num(1.0)),
        ("y0", float_num(2.0)),
        ("x1", float_num(3.0)),
        ("y1", float_num(4.0)),
    ];
    v.push(("unit", s("pt")));
    let with_extra = bbox_from_value(&obj(v)).unwrap();
    assert_eq!(with_extra, bbox_from_value(&bbox_arr(1.0, 2.0, 3.0, 4.0)).unwrap());
}

#[test]
fn bbox_inverted_coordinates_pass_through() {
    // normalization is purely representational: an inverted box is kept,
    // not reordered
    let b = bbox_from_value(&bbox_arr(9.0, 8.0, 1.0, 2.0)).unwrap();
    assert_eq!(b.x0, 9.0f64.to_bits());
    assert_eq!(b.x1, 1.0f64.to_bits());
    assert_eq!(b.y0, 8.0f64.to_bits());
    assert_eq!(b.y1, 2.0f64.to_bits());
}

#[test]
fn bbox_three_element_array_rejected() {
    let v = JsonVal::Arr(vec![float_num(1.0), float_num(2.0), float_num(3.0)]);
    assert_eq!(bbox_from_value(&v), Err(SchemaErr::BboxShape));
}

#[test]
fn bbox_five_element_array_rejected() {
    let v = JsonVal::Arr(vec![
        float_num(1.0),
        float_num(2.0),
        float_num(3.0),
        float_num(4.0),
        float_num(5.0),
    ]);
    assert_eq!(bbox_from_value(&v), Err(SchemaErr::BboxShape));
}

#[test]
fn bbox_non_numeric_element_names_index() {
    let v = JsonVal::Arr(vec![float_num(1.0), float_num(2.0), s("three"), float_num(4.0)]);
    assert_eq!(bbox_from_value(&v), Err(SchemaErr::BboxElem(2)));
}

#[test]
fn bbox_missing_key_names_coordinate() {
    let v = obj(vec![("x0", float_num(1.0)), ("y0", float_num(2.0)), ("x1", float_num(3.0))]);
    assert_eq!(bbox_from_value(&v), Err(SchemaErr::BboxCoord(Coord::Y1)));
}

#[test]
fn bbox_non_numeric_key_names_coordinate() {
    let v = obj(vec![
        ("x0", s("one")),
        ("y0", float_num(2.0)),
        ("x1", float_num(3.0)),
        ("y1", float_num(4.0)),
    ]);
    assert_eq!(bbox_from_value(&v), Err(SchemaErr::BboxCoord(Coord::X0)));
}

#[test]
fn bbox_other_shapes_rejected() {
    assert_eq!(bbox_from_value(&s("box")), Err(SchemaErr::BboxShape));
    assert_eq!(bbox_from_value(&JsonVal::Null), Err(SchemaErr::BboxShape));
    assert_eq!(bbox_from_value(&int_num(4)), Err(SchemaErr::BboxShape));
}

fn minimal_block_fields() -> Vec<(&'static str, JsonVal)> {
    vec![
        ("type", s("paragraph")),
        ("text", s("hello")),
        ("bbox", bbox_arr(1.0, 2.0, 3.0, 4.0)),
        ("page_number", int_num(1)),
        ("length", int_num(5)),
    ]
}

#[test]
fn block_minimal_defaults() {
    let b = block_from_value(&obj(minimal_block_fields())).unwrap();
    assert_eq!(b.kind, "paragraph");
    assert_eq!(b.text, "hello");
    assert_eq!(b.page_number, 1);
    assert_eq!(b.length, 5);
    assert_eq!(b.font_size, 0);
    assert_eq!(b.font_weight, None);
    assert_eq!(b.lines, None);
    assert_eq!(b.confidence, None);
    assert_eq!(b.row_count, None);
    assert_eq!(b.col_count, None);
    assert_eq!(b.cell_count, None);
    assert!(b.rows.is_none());
}

#[test]
fn block_null_optional_fields_are_unset() {
    let mut fields = minimal_block_fields();
    fields.push(("font_weight", JsonVal::Null));
    fields.push(("lines", JsonVal::Null));
    fields.push(("confidence", JsonVal::Null));
    fields.push(("rows", JsonVal::Null));
    fields.push(("font_size", JsonVal::Null));
    let b = block_from_value(&obj(fields)).unwrap();
    assert_eq!(b.font_weight, None);
    assert_eq!(b.lines, None);
    assert_eq!(b.confidence, None);
    assert!(b.rows.is_none());
    assert_eq!(b.font_size, 0);
}

#[test]
fn block_optional_fields_present() {
    let mut fields = minimal_block_fields();
    fields.push(("font_size", float_num(11.5)));
    fields.push(("font_weight", s("bold")));
    fields.push(("lines", int_num(3)));
    fields.push(("confidence", float_num(0.75)));
    fields.push(("row_count", int_num(2)));
    let b = block_from_value(&obj(fields)).unwrap();
    assert_eq!(b.font_size, 11.5f64.to_bits());
    assert_eq!(b.font_weight.as_deref(), Some("bold"));
    assert_eq!(b.lines, Some(3));
    assert_eq!(b.confidence, Some(0.75f64.to_bits()));
    assert_eq!(b.row_count, Some(2));
}

#[test]
fn block_missing_required_field() {
    let mut fields = minimal_block_fields();
    fields.retain(|(k, _)| *k != "text");
    assert_eq!(
        block_from_value(&obj(fields)),
        Err(SchemaErr::Missing(FieldName::Text))
    );
    let mut fields = minimal_block_fields();
    fields.retain(|(k, _)| *k != "page_number");
    assert_eq!(
        block_from_value(&obj(fields)),
        Err(SchemaErr::Missing(FieldName::PageNumber))
    );
}

#[test]
fn block_count_fields_must_be_unsigned_integers() {
    let mut fields = minimal_block_fields();
    fields.push(("lines", int_num(-1)));
    assert_eq!(block_from_value(&obj(fields)), Err(SchemaErr::Wrong(FieldName::Lines)));
    let mut fields = minimal_block_fields();
    fields.push(("lines", float_num(2.5)));
    assert_eq!(block_from_value(&obj(fields)), Err(SchemaErr::Wrong(FieldName::Lines)));
}

#[test]
fn block_page_number_must_fit_native_range() {
    let mut fields = minimal_block_fields();
    fields.retain(|(k, _)| *k != "page_number");
    fields.push(("page_number", int_num(i32::MAX as i64 + 1)));
    assert_eq!(
        block_from_value(&obj(fields)),
        Err(SchemaErr::Wrong(FieldName::PageNumber))
    );
}

#[test]
fn block_with_table_rows() {
    let cell = obj(vec![("bbox", bbox_obj(1.0, 1.0, 2.0, 2.0)), ("text", s("c1"))]);
    let row = obj(vec![("bbox", bbox_arr(1.0, 1.0, 9.0, 2.0)), ("cells", JsonVal::Arr(vec![cell]))]);
    let mut fields = minimal_block_fields();
    fields.push(("rows", JsonVal::Arr(vec![row])));
    let b = block_from_value(&obj(fields)).unwrap();
    let rows = b.rows.unwrap();
    assert_eq!(rows.len(), 1);
    assert_eq!(rows[0].cells.len(), 1);
    assert_eq!(rows[0].cells[0].text, "c1");
    assert_eq!(rows[0].cells[0].bbox.x1, 2.0f64.to_bits());
}

#[test]
fn block_row_without_cells_rejected() {
    let row = obj(vec![("bbox", bbox_arr(1.0, 1.0, 9.0, 2.0))]);
    let mut fields = minimal_block_fields();
    fields.push(("rows", JsonVal::Arr(vec![row])));
    assert_eq!(
        block_from_value(&obj(fields)),
        Err(SchemaErr::Missing(FieldName::Cells))
    );
}

#[test]
fn block_not_an_object_rejected() {
    assert_eq!(block_from_value(&s("block")), Err(SchemaErr::BlockShape));
}

#[test]
fn document_must_be_an_array() {
    assert_eq!(blocks_from_value(&obj(vec![])), Err(SchemaErr::DocShape));
}

#[test]
fn one_bad_block_aborts_the_document() {
    let good = obj(minimal_block_fields());
    let bad = obj(vec![("type", s("p"))]);
    let doc = JsonVal::Arr(vec![good, bad]);
    assert_eq!(blocks_from_value(&doc), Err(SchemaErr::Missing(FieldName::Text)));
}

#[test]
fn parses_real_payload_text() {
    let text = r#"[
        {"type": "heading", "text": "Title", "bbox": [10, 20.5, 300, 40],
         "font_size": 18, "page_number": 1, "length": 5},
        {"type": "paragraph", "text": "Body", "bbox": {"x0": 1, "y0": 2, "x1": 3, "y1": 4},
         "page_number": 1, "length": 4, "lines": 2}
    ]"#;
    let blocks = blocks_from_json(text).unwrap();
    assert_eq!(blocks.len(), 2);
    assert_eq!(blocks[0].kind, "heading");
    assert_eq!(blocks[0].bbox.y0, 20.5f64.to_bits());
    assert_eq!(blocks[0].bbox.x0, 10.0f64.to_bits());
    assert_eq!(blocks[0].font_size, 18.0f64.to_bits());
    assert_eq!(blocks[1].bbox.y1, 4.0f64.to_bits());
    assert_eq!(blocks[1].lines, Some(2));
}

#[test]
fn malformed_text_is_a_syntax_failure() {
    assert!(matches!(
        blocks_from_json("not json"),
        Err(PdfError::Json(SchemaErr::Syntax))
    ));
}

#[test]
fn non_array_payload_is_a_document_shape_failure() {
    assert!(matches!(
        blocks_from_json("{}"),
        Err(PdfError::Json(SchemaErr::DocShape))
    ));
}
