//! Resolution of the output location for whole-document extraction.
//!
//! Paths are carried as byte strings, the form in which they cross the
//! native boundary. When the caller names no output location, one is derived
//! deterministically from the input path: the input's stem followed by
//! `.json` (one merged artifact file, the default) or `_json` (a directory
//! of per-page artifacts).

use vstd::prelude::*;

verus! {

/// How the native engine is asked to lay its artifacts out: one merged JSON
/// file for the whole document, or a directory holding one JSON file per
/// page. `MergedDocument` is the default granularity.
#[derive(Clone, Copy, Debug, PartialEq, Eq, Structural)]
pub enum ArtifactGranularity {
    MergedDocument,
    PerPage,
}

/// The byte `/`, the path component separator.
pub const SEP: u8 = 47;

/// The byte `.`, which begins a file extension.
pub const DOT: u8 = 46;

/// The index of the `.` that begins the extension of the final component of
/// `p`: the last `.` of that component, except one that stands first in the
/// component (a leading dot names a hidden file, not an extension). `None`
/// when the final component has no extension or `p` ends with a separator.
pub open spec fn ext_dot(p: Seq<u8>) -> Option<int>
    decreases p.len(),
{
    let n = p.len() as int;
    if n == 0 {
        None
    } else if p[n - 1] == SEP {
        None
    } else if p[n - 1] == DOT {
        if n >= 2 && p[n - 2] != SEP {
            Some(n - 1)
        } else {
            None
        }
    } else {
        ext_dot(p.drop_last())
    }
}

/// The length of `p` up to (excluding) its extension dot, or all of `p`
/// when it has none.
pub open spec fn stem_len(p: Seq<u8>) -> int {
    match ext_dot(p) {
        Some(d) => d,
        None => p.len() as int,
    }
}

/// The suffix that marks a derived output location: `.json` for one merged
/// file, `_json` for a directory of per-page files (the trailing four
/// bytes spell `json`).
pub open spec fn suffix_view(g: ArtifactGranularity) -> Seq<u8> {
    match g {
        ArtifactGranularity::MergedDocument => seq![DOT, 106u8, 115u8, 111u8, 110u8],
        ArtifactGranularity::PerPage => seq![95u8, 106u8, 115u8, 111u8, 110u8],
    }
}

/// The default output location for input `p`: its stem with the suffix of
/// the chosen granularity.
pub open spec fn default_output_view(p: Seq<u8>, g: ArtifactGranularity) -> Seq<u8> {
    p.take(stem_len(p)) + suffix_view(g)
}

/// The resolved output location: the caller's, when one was named, else the
/// default derived from the input path.
pub open spec fn resolve_output_view(
    p: Seq<u8>,
    out: Option<Seq<u8>>,
    g: ArtifactGranularity,
) -> Seq<u8> {
    match out {
        Some(o) => o,
        None => default_output_view(p, g),
    }
}

/// An extension dot is always an index into `p`.
proof fn lemma_ext_dot_in_range(p: Seq<u8>)
    ensures
        ext_dot(p) matches Some(d) ==> 0 <= d < p.len(),
    decreases p.len(),
{
    if p.len() > 0 && p[p.len() - 1] != SEP && p[p.len() - 1] != DOT {
        lemma_ext_dot_in_range(p.drop_last());
    }
}

/// Finds the extension dot of the final component of `p`, scanning from the
/// end.
fn find_ext_dot(p: &Vec<u8>) -> (r: Option<usize>)
    ensures
        match r {
            Some(d) => ext_dot(p@) == Some(d as int),
            None => ext_dot(p@) is None,
        },
{
    let n = p.len();
    let mut i: usize = n;
    proof {
        assert(p@.take(n as int) =~= p@);
    }
    loop
        invariant
            i <= n,
            n == p@.len(),
            ext_dot(p@) == ext_dot(p@.take(i as int)),
        decreases i,
    {
        if i == 0 {
            return None;
        }
        let b = p[i - 1];
        if b == SEP {
            return None;
        }
        if b == DOT {
            if i >= 2 && p[i - 2] != SEP {
                return Some(i - 1);
            }
            return None;
        }
        proof {
            assert(p@.take(i as int).drop_last() =~= p@.take(i as int - 1));
        }
        i = i - 1;
    }
}

/// Copies `src` and appends the granularity's suffix to its first `keep`
/// bytes.
fn stem_with_suffix(src: &Vec<u8>, keep: usize, g: ArtifactGranularity) -> (r: Vec<u8>)
    requires
        keep <= src@.len(),
    ensures
        r@ == src@.take(keep as int) + suffix_view(g),
{
    let mut out: Vec<u8> = Vec::new();
    let mut i: usize = 0;
    while i < keep
        invariant
            i <= keep,
            keep <= src@.len(),
            out@ == src@.take(i as int),
        decreases keep - i,
    {
        out.push(src[i]);
        proof {
            assert(src@.take(i as int).push(src@[i as int]) =~= src@.take(i as int + 1));
        }
        i = i + 1;
    }
    match g {
        ArtifactGranularity::MergedDocument => out.push(DOT),
        ArtifactGranularity::PerPage => out.push(95),  // `_`
    }
    out.push(106);  // `j`
    out.push(115);  // `s`
    out.push(111);  // `o`
    out.push(110);  // `n`
    proof {
        assert(out@ =~= src@.take(keep as int) + suffix_view(g));
    }
    out
}

/// The default output location for `pdf_path` at the chosen granularity:
/// the path's stem with `.json` or `_json` appended.
pub fn default_output_location(pdf_path: &Vec<u8>, g: ArtifactGranularity) -> (r: Vec<u8>)
    ensures
        r@ == default_output_view(pdf_path@, g),
{
    proof {
        lemma_ext_dot_in_range(pdf_path@);
    }
    let d = match find_ext_dot(pdf_path) {
        Some(d) => d,
        None => pdf_path.len(),
    };
    stem_with_suffix(pdf_path, d, g)
}

/// The default merged-file output location: the input path with its
/// extension replaced by `.json`.
pub fn default_output_file(pdf_path: &Vec<u8>) -> (r: Vec<u8>)
    ensures
        r@ == default_output_view(pdf_path@, ArtifactGranularity::MergedDocument),
{
    default_output_location(pdf_path, ArtifactGranularity::MergedDocument)
}

/// Resolves the output location at the chosen granularity: the caller's
/// location when one was named, else the default derived from the input.
pub fn resolve_output_location(
    pdf_path: &Vec<u8>,
    output: Option<&Vec<u8>>,
    g: ArtifactGranularity,
) -> (r: Vec<u8>)
    ensures
        r@ == resolve_output_view(
            pdf_path@,
            match output {
                Some(o) => Some(o@),
                None => None,
            },
            g,
        ),
{
    match output {
        Some(o) => copy_bytes(o),
        None => default_output_location(pdf_path, g),
    }
}

/// Resolves the merged-file output location, the default granularity.
pub fn resolve_output_file(pdf_path: &Vec<u8>, output_file: Option<&Vec<u8>>) -> (r: Vec<u8>)
    ensures
        r@ == resolve_output_view(
            pdf_path@,
            match output_file {
                Some(o) => Some(o@),
                None => None,
            },
            ArtifactGranularity::MergedDocument,
        ),
{
    resolve_output_location(pdf_path, output_file, ArtifactGranularity::MergedDocument)
}

/// The index just past the last separator of `p`, or `None` when `p`
/// holds no separator.
pub open spec fn last_sep(p: Seq<u8>) -> Option<int>
    decreases p.len(),
{
    let n = p.len() as int;
    if n == 0 {
        None
    } else if p[n - 1] == SEP {
        Some(n - 1)
    } else {
        last_sep(p.drop_last())
    }
}

/// The directory part of `p`: everything before its last separator, or
/// `None` when `p` is a bare file name. The location that must exist
/// before the native engine can write the artifact at `p`.
pub open spec fn parent_view(p: Seq<u8>) -> Option<Seq<u8>> {
    match last_sep(p) {
        Some(i) => Some(p.take(i)),
        None => None,
    }
}

/// A separator index is always an index into `p`.
proof fn lemma_last_sep_in_range(p: Seq<u8>)
    ensures
        last_sep(p) matches Some(i) ==> 0 <= i < p.len(),
    decreases p.len(),
{
    if p.len() > 0 && p[p.len() - 1] != SEP {
        lemma_last_sep_in_range(p.drop_last());
    }
}

/// The directory part of `p`, which must be created before the native
/// engine can write there.
pub fn parent_of(p: &Vec<u8>) -> (r: Option<Vec<u8>>)
    ensures
        match r {
            Some(d) => parent_view(p@) == Some(d@),
            None => parent_view(p@) is None,
        },
{
    proof {
        lemma_last_sep_in_range(p@);
    }
    let n = p.len();
    let mut i: usize = n;
    proof {
        assert(p@.take(n as int) =~= p@);
    }
    loop
        invariant
            i <= n,
            n == p@.len(),
            last_sep(p@) == last_sep(p@.take(i as int)),
        decreases i,
    {
        if i == 0 {
            return None;
        }
        if p[i - 1] == SEP {
            let mut out: Vec<u8> = Vec::new();
            let mut j: usize = 0;
            while j < i - 1
                invariant
                    j <= i - 1,
                    i <= n,
                    n == p@.len(),
                    out@ == p@.take(j as int),
                decreases i - 1 - j,
            {
                out.push(p[j]);
                proof {
                    assert(p@.take(j as int).push(p@[j as int]) =~= p@.take(j as int + 1));
                }
                j = j + 1;
            }
            return Some(out);
        }
        proof {
            assert(p@.take(i as int).drop_last() =~= p@.take(i as int - 1));
        }
        i = i - 1;
    }
}

/// Copies a byte string.
pub fn copy_bytes(src: &Vec<u8>) -> (r: Vec<u8>)
    ensures
        r@ == src@,
{
    let mut out: Vec<u8> = Vec::new();
    let mut i: usize = 0;
    while i < src.len()
        invariant
            i <= src@.len(),
            out@ == src@.take(i as int),
        decreases src@.len() - i,
    {
        out.push(src[i]);
        proof {
            assert(src@.take(i as int).push(src@[i as int]) =~= src@.take(i as int + 1));
        }
        i = i + 1;
    }
    proof {
        assert(src@.take(src@.len() as int) =~= src@);
    }
    out
}

} // verus!
