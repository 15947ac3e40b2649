//! Discovery and ordering of per-page artifact files.
//!
//! In per-page mode the native engine writes one JSON file per page into
//! the output directory, named `page_<n>.json`. Discovery filters a
//! directory listing down to names of that form and sorts them in
//! byte-lexicographic order. Lexicographic order is the documented
//! convention: page numbers sort correctly past nine pages only where the
//! engine zero-pads them, which is the engine's contract, not something
//! discovery can repair (`page_10.json` sorts before `page_2.json`).

use vstd::prelude::*;
use vstd::seq_lib::group_to_multiset_ensures;
use crate::output::copy_bytes;

verus! {

broadcast use group_to_multiset_ensures;

/// Byte-lexicographic order on names: the order in which discovered
/// artifacts are handed to the aggregator.
pub open spec fn lex_le(a: Seq<u8>, b: Seq<u8>) -> bool
    decreases a.len(),
{
    if a.len() == 0 {
        true
    } else if b.len() == 0 {
        false
    } else if a[0] < b[0] {
        true
    } else if a[0] > b[0] {
        false
    } else {
        lex_le(a.drop_first(), b.drop_first())
    }
}

/// The order is total.
pub proof fn lemma_lex_le_total(a: Seq<u8>, b: Seq<u8>)
    ensures
        lex_le(a, b) || lex_le(b, a),
    decreases a.len(),
{
    if a.len() > 0 && b.len() > 0 && a[0] == b[0] {
        lemma_lex_le_total(a.drop_first(), b.drop_first());
    }
}

/// The order is transitive.
pub proof fn lemma_lex_le_trans(a: Seq<u8>, b: Seq<u8>, c: Seq<u8>)
    requires
        lex_le(a, b),
        lex_le(b, c),
    ensures
        lex_le(a, c),
    decreases a.len(),
{
    if a.len() > 0 && c.len() > 0 && b.len() > 0 && a[0] == b[0] && b[0] == c[0] {
        lemma_lex_le_trans(a.drop_first(), b.drop_first(), c.drop_first());
    }
}

/// The order is antisymmetric: names below each other are the same name.
pub proof fn lemma_lex_le_antisym(a: Seq<u8>, b: Seq<u8>)
    requires
        lex_le(a, b),
        lex_le(b, a),
    ensures
        a =~= b,
    decreases a.len(),
{
    if a.len() > 0 && b.len() > 0 && a[0] == b[0] {
        lemma_lex_le_antisym(a.drop_first(), b.drop_first());
        assert(a =~= seq![a[0]] + a.drop_first());
        assert(b =~= seq![b[0]] + b.drop_first());
    }
}

/// Whether a sequence of names stands in lexicographic order.
pub open spec fn lex_sorted(s: Seq<Seq<u8>>) -> bool {
    forall|i: int, j: int| 0 <= i < j < s.len() ==> lex_le(s[i], s[j])
}

/// Ordering multi-file results is deterministic: there is exactly one
/// sorted arrangement of a given collection of names, so any two sorted
/// sequences holding the same names the same number of times are equal.
pub proof fn lemma_sorted_arrangement_unique(a: Seq<Seq<u8>>, b: Seq<Seq<u8>>)
    requires
        lex_sorted(a),
        lex_sorted(b),
        a.to_multiset() == b.to_multiset(),
    ensures
        a =~= b,
    decreases a.len(),
{
    if a.len() == 0 {
        assert(a.to_multiset().len() == 0);
        assert(b.len() == b.to_multiset().len());
    } else {
        assert(a.len() == a.to_multiset().len());
        assert(b.len() == b.to_multiset().len());
        assert(a.contains(a[0]));
        assert(b.to_multiset().count(a[0]) > 0);
        assert(b.contains(a[0]));
        let bi = choose|k: int| 0 <= k < b.len() && b[k] == a[0];
        assert(b.contains(b[0]));
        assert(a.to_multiset().count(b[0]) > 0);
        assert(a.contains(b[0]));
        let ai = choose|k: int| 0 <= k < a.len() && a[k] == b[0];
        if bi > 0 {
            assert(lex_le(b[0], b[bi]));
        } else {
            lemma_lex_le_total(b[0], b[0]);
        }
        if ai > 0 {
            assert(lex_le(a[0], a[ai]));
        } else {
            lemma_lex_le_total(a[0], a[0]);
        }
        lemma_lex_le_antisym(a[0], b[0]);
        assert(a[0] == b[0]);
        assert(a.drop_first().to_multiset() == b.drop_first().to_multiset()) by {
            assert(a.remove(0) =~= a.drop_first());
            assert(b.remove(0) =~= b.drop_first());
            assert(a.remove(0).to_multiset() =~= a.to_multiset().remove(a[0]));
            assert(b.remove(0).to_multiset() =~= b.to_multiset().remove(b[0]));
        }
        assert(lex_sorted(a.drop_first())) by {
            assert forall|i: int, j: int|
                0 <= i < j < a.drop_first().len() implies lex_le(
                a.drop_first()[i],
                a.drop_first()[j],
            ) by {
                assert(a.drop_first()[i] == a[i + 1]);
                assert(a.drop_first()[j] == a[j + 1]);
            }
        }
        assert(lex_sorted(b.drop_first())) by {
            assert forall|i: int, j: int|
                0 <= i < j < b.drop_first().len() implies lex_le(
                b.drop_first()[i],
                b.drop_first()[j],
            ) by {
                assert(b.drop_first()[i] == b[i + 1]);
                assert(b.drop_first()[j] == b[j + 1]);
            }
        }
        lemma_sorted_arrangement_unique(a.drop_first(), b.drop_first());
        assert(a =~= seq![a[0]] + a.drop_first());
        assert(b =~= seq![b[0]] + b.drop_first());
    }
}

/// The bytes of `page_`, the artifact name prefix.
pub open spec fn page_prefix() -> Seq<u8> {
    seq![112u8, 97u8, 103u8, 101u8, 95u8]
}

/// The bytes of `.json`, the artifact name suffix.
pub open spec fn json_suffix() -> Seq<u8> {
    seq![46u8, 106u8, 115u8, 111u8, 110u8]
}

/// Whether a file name is a per-page artifact's: `page_` first, `.json`
/// last.
pub open spec fn is_artifact_name(s: Seq<u8>) -> bool {
    &&& s.len() >= 10
    &&& s.take(5) == page_prefix()
    &&& s.skip(s.len() - 5) == json_suffix()
}

/// Decides whether one file name is a per-page artifact's.
pub fn is_page_artifact(name: &Vec<u8>) -> (r: bool)
    ensures
        r == is_artifact_name(name@),
{
    let n = name.len();
    if n < 10 {
        return false;
    }
    let prefix_ok = name[0] == 112 && name[1] == 97 && name[2] == 103 && name[3] == 101
        && name[4] == 95;
    let suffix_ok = name[n - 5] == 46 && name[n - 4] == 106 && name[n - 3] == 115 && name[n - 2]
        == 111 && name[n - 1] == 110;
    proof {
        if prefix_ok {
            assert(name@.take(5) =~= page_prefix());
        } else {
            assert(name@.take(5) != page_prefix()) by {
                if name@.take(5) == page_prefix() {
                    assert(name@[0] == page_prefix()[0]);
                    assert(name@[1] == page_prefix()[1]);
                    assert(name@[2] == page_prefix()[2]);
                    assert(name@[3] == page_prefix()[3]);
                    assert(name@[4] == page_prefix()[4]);
                }
            }
        }
        if suffix_ok {
            assert(name@.skip(n - 5) =~= json_suffix());
        } else {
            assert(name@.skip(n - 5) != json_suffix()) by {
                if name@.skip(n - 5) == json_suffix() {
                    assert(name@[n - 5] == json_suffix()[0]);
                    assert(name@[n - 4] == json_suffix()[1]);
                    assert(name@[n - 3] == json_suffix()[2]);
                    assert(name@[n - 2] == json_suffix()[3]);
                    assert(name@[n - 1] == json_suffix()[4]);
                }
            }
        }
    }
    prefix_ok && suffix_ok
}

/// Compares two names in lexicographic order.
pub fn lex_le_bytes(a: &Vec<u8>, b: &Vec<u8>) -> (r: bool)
    ensures
        r == lex_le(a@, b@),
{
    let mut i: usize = 0;
    proof {
        assert(a@.skip(0) =~= a@);
        assert(b@.skip(0) =~= b@);
    }
    loop
        invariant
            i <= a@.len(),
            i <= b@.len(),
            lex_le(a@, b@) == lex_le(a@.skip(i as int), b@.skip(i as int)),
        decreases a@.len() - i,
    {
        if i == a.len() {
            return true;
        }
        if i == b.len() {
            return false;
        }
        if a[i] < b[i] {
            return true;
        }
        if a[i] > b[i] {
            return false;
        }
        proof {
            assert(a@.skip(i as int)[0] == a@[i as int]);
            assert(b@.skip(i as int)[0] == b@[i as int]);
            assert(a@.skip(i as int).drop_first() =~= a@.skip(i as int + 1));
            assert(b@.skip(i as int).drop_first() =~= b@.skip(i as int + 1));
        }
        i = i + 1;
    }
}

/// The images of a vector of names.
pub open spec fn name_views(v: Seq<Vec<u8>>) -> Seq<Seq<u8>> {
    v.map_values(|x: Vec<u8>| x@)
}

/// The subsequence of artifact names in a listing, in listing order.
pub open spec fn artifact_filter(s: Seq<Seq<u8>>) -> Seq<Seq<u8>>
    decreases s.len(),
{
    if s.len() == 0 {
        Seq::empty()
    } else {
        let rest = artifact_filter(s.drop_last());
        if is_artifact_name(s.last()) {
            rest.push(s.last())
        } else {
            rest
        }
    }
}

/// The position at which `name` belongs in the sorted vector `out`: the
/// first entry not below it.
fn insert_pos(out: &Vec<Vec<u8>>, name: &Vec<u8>) -> (k: usize)
    ensures
        k <= out@.len(),
        forall|j: int| 0 <= j < k ==> lex_le(name_views(out@)[j], name@),
        k < out@.len() ==> lex_le(name@, name_views(out@)[k as int]),
{
    let mut k: usize = 0;
    while k < out.len()
        invariant
            k <= out@.len(),
            forall|j: int| 0 <= j < k ==> lex_le(name_views(out@)[j], name@),
        decreases out@.len() - k,
    {
        if lex_le_bytes(name, &out[k]) {
            proof {
                assert(name_views(out@)[k as int] == out@[k as int]@);
            }
            return k;
        }
        proof {
            assert(name_views(out@)[k as int] == out@[k as int]@);
            lemma_lex_le_total(name@, out@[k as int]@);
        }
        k = k + 1;
    }
    k
}

/// Discovers the per-page artifacts in a directory listing: keeps exactly
/// the names of artifact form and hands them back sorted in lexicographic
/// order, multiplicities kept.
pub fn select_artifacts(names: &Vec<Vec<u8>>) -> (r: Vec<Vec<u8>>)
    ensures
        lex_sorted(name_views(r@)),
        name_views(r@).to_multiset() == artifact_filter(name_views(names@)).to_multiset(),
        forall|j: int| 0 <= j < r@.len() ==> is_artifact_name(#[trigger] name_views(r@)[j]),
{
    let n = names.len();
    let mut out: Vec<Vec<u8>> = Vec::new();
    let mut i: usize = 0;
    proof {
        assert(name_views(names@.take(0)) =~= Seq::<Seq<u8>>::empty());
        assert(name_views(out@) =~= Seq::<Seq<u8>>::empty());
    }
    while i < n
        invariant
            i <= n,
            n == names@.len(),
            lex_sorted(name_views(out@)),
            forall|j: int| 0 <= j < out@.len() ==> is_artifact_name(#[trigger] name_views(out@)[j]),
            name_views(out@).to_multiset() == artifact_filter(
                name_views(names@.take(i as int)),
            ).to_multiset(),
        decreases n - i,
    {
        let name = copy_bytes(&names[i]);
        let ghost pre = name_views(out@);
        let ghost pre_filter = artifact_filter(name_views(names@.take(i as int)));
        proof {
            assert(name_views(names@.take(i as int + 1)).drop_last() =~= name_views(
                names@.take(i as int),
            ));
            assert(name_views(names@.take(i as int + 1)).last() == names@[i as int]@);
        }
        if is_page_artifact(&name) {
            let k = insert_pos(&out, &name);
            out.insert(k, name);
            proof {
                assert(name_views(out@) =~= pre.insert(k as int, names@[i as int]@));
                assert forall|a: int, b: int|
                    0 <= a < b < name_views(out@).len() implies lex_le(
                    name_views(out@)[a],
                    name_views(out@)[b],
                ) by {
                    let s = name_views(out@);
                    let nv = names@[i as int]@;
                    if a < k && b == k {
                        assert(s[a] == pre[a]);
                    } else if a == k && b > k {
                        assert(s[b] == pre[b - 1]);
                        if b - 1 > k {
                            lemma_lex_le_trans(nv, pre[k as int], pre[b - 1]);
                        }
                    } else if a < k && b > k {
                        assert(s[a] == pre[a] && s[b] == pre[b - 1]);
                    } else if a > k && b > k {
                        assert(s[a] == pre[a - 1] && s[b] == pre[b - 1]);
                    }
                }
                assert forall|j: int| 0 <= j < out@.len() implies is_artifact_name(
                    #[trigger] name_views(out@)[j],
                ) by {
                    if j < k {
                        assert(name_views(out@)[j] == pre[j]);
                    } else if j > k {
                        assert(name_views(out@)[j] == pre[j - 1]);
                    }
                }
                assert(artifact_filter(name_views(names@.take(i as int + 1)))
                    =~= pre_filter.push(names@[i as int]@));
            }
        } else {
            proof {
                assert(artifact_filter(name_views(names@.take(i as int + 1))) =~= pre_filter);
            }
        }
        i = i + 1;
    }
    proof {
        assert(names@.take(n as int) =~= names@);
    }
    out
}

} // verus!
