//! The result aggregator.
//!
//! All three extraction modes end here: a single merged artifact's text, a
//! single page's in-memory payload, and the texts of the per-page
//! artifacts in their sorted order. Each payload goes through one
//! deserialization path — parse, then the schema normalizer — and one bad
//! payload aborts the whole aggregation with its error; partial results
//! are never returned.

use vstd::prelude::*;
use crate::errors::{PdfError, PdfErrorView, SchemaErr};
use crate::json_value::{parse_json, parsed_json};
use crate::schema::{blocks_from_value, blocks_view, doc_norm, Block, BlockView};

verus! {

/// Normalization of one payload text: the parse of the text, then the
/// whole-document schema contract; text that is not JSON is a syntax
/// failure.
pub open spec fn payload_norm(s: Seq<char>) -> Result<Seq<BlockView>, SchemaErr> {
    match parsed_json(s) {
        None => Err(SchemaErr::Syntax),
        Some(v) => doc_norm(v),
    }
}

/// Deserializes one JSON payload into the typed block collection. This is
/// the one deserialization path: the merged artifact's contents and a
/// single page's in-memory payload both come through here.
pub fn blocks_from_json(text: &str) -> (r: Result<Vec<Block>, PdfError>)
    ensures
        match r {
            Ok(bs) => payload_norm(text@) == Ok::<Seq<BlockView>, SchemaErr>(blocks_view(bs@)),
            Err(e) => {
                &&& e@ matches PdfErrorView::Json(se) && payload_norm(text@) == Err::<
                    Seq<BlockView>,
                    SchemaErr,
                >(se)
            },
        },
{
    match parse_json(text) {
        None => Err(PdfError::Json(SchemaErr::Syntax)),
        Some(v) => match blocks_from_value(&v) {
            Ok(bs) => Ok(bs),
            Err(se) => Err(PdfError::Json(se)),
        },
    }
}

/// The images of a sequence of page payload texts.
pub open spec fn text_views(ts: Seq<String>) -> Seq<Seq<char>> {
    ts.map_values(|t: String| t@)
}

/// The images of a sequence of per-page block collections.
pub open spec fn page_views(ps: Seq<Vec<Block>>) -> Seq<Seq<BlockView>> {
    ps.map_values(|p: Vec<Block>| blocks_view(p@))
}

/// Normalization of the page payloads in artifact order: one inner
/// sequence per page, and the first failing payload's error for all of
/// them.
pub open spec fn pages_norm(ts: Seq<Seq<char>>) -> Result<Seq<Seq<BlockView>>, SchemaErr>
    decreases ts.len(),
{
    if ts.len() == 0 {
        Ok(Seq::empty())
    } else {
        match pages_norm(ts.drop_last()) {
            Err(e) => Err(e),
            Ok(init) => match payload_norm(ts.last()) {
                Err(e) => Err(e),
                Ok(bs) => Ok(init.push(bs)),
            },
        }
    }
}

/// A failure among the first payloads decides the whole sequence.
proof fn lemma_pages_norm_err_prefix(ts: Seq<Seq<char>>, k: int, e: SchemaErr)
    requires
        0 <= k <= ts.len(),
        pages_norm(ts.take(k)) == Err::<Seq<Seq<BlockView>>, SchemaErr>(e),
    ensures
        pages_norm(ts) == Err::<Seq<Seq<BlockView>>, SchemaErr>(e),
    decreases ts.len(),
{
    if k == ts.len() {
        assert(ts.take(k) =~= ts);
    } else {
        assert(ts.drop_last().take(k) =~= ts.take(k));
        lemma_pages_norm_err_prefix(ts.drop_last(), k, e);
    }
}

/// Aggregates the per-page payloads, in the sorted artifact order, into
/// one block collection per page. One bad payload fails the whole call
/// with that payload's error.
pub fn collect_page_blocks(texts: &Vec<String>) -> (r: Result<Vec<Vec<Block>>, PdfError>)
    ensures
        match r {
            Ok(pages) => pages_norm(text_views(texts@)) == Ok::<Seq<Seq<BlockView>>, SchemaErr>(
                page_views(pages@),
            ),
            Err(e) => {
                &&& e@ matches PdfErrorView::Json(se) && pages_norm(text_views(texts@)) == Err::<
                    Seq<Seq<BlockView>>,
                    SchemaErr,
                >(se)
            },
        },
{
    let n = texts.len();
    let mut out: Vec<Vec<Block>> = Vec::new();
    let mut i: usize = 0;
    proof {
        assert(text_views(texts@.take(0)) =~= Seq::<Seq<char>>::empty());
        assert(page_views(out@) =~= Seq::<Seq<BlockView>>::empty());
    }
    while i < n
        invariant
            i <= n,
            n == texts@.len(),
            pages_norm(text_views(texts@.take(i as int))) == Ok::<Seq<Seq<BlockView>>, SchemaErr>(
                page_views(out@),
            ),
        decreases n - i,
    {
        proof {
            assert(text_views(texts@.take(i as int + 1)).drop_last() =~= text_views(
                texts@.take(i as int),
            ));
            assert(text_views(texts@.take(i as int + 1)).last() == texts@[i as int]@);
        }
        match blocks_from_json(texts[i].as_str()) {
            Err(e) => {
                proof {
                    if let PdfErrorView::Json(se) = e@ {
                        assert(text_views(texts@).take(i as int + 1) =~= text_views(
                            texts@.take(i as int + 1),
                        ));
                        lemma_pages_norm_err_prefix(text_views(texts@), i as int + 1, se);
                    }
                }
                return Err(e);
            },
            Ok(bs) => {
                let ghost pre = page_views(out@);
                let ghost bv = blocks_view(bs@);
                out.push(bs);
                proof {
                    assert(page_views(out@) =~= pre.push(bv));
                }
            },
        }
        i = i + 1;
    }
    proof {
        assert(texts@.take(n as int) =~= texts@);
    }
    Ok(out)
}

} // verus!
