//! Sorted sets of names, in the byte order of their UTF-8 encodings, the
//! order in which `String`s compare.
use crate::bytes::{lemma_lex_order_antisym, lemma_lex_order_trans, lemma_lex_order_zero, lex_compare, lex_order};
use vstd::multiset::*;
use vstd::prelude::*;
use vstd::seq_lib::*;
use vstd::string::*;
use vstd::utf8::*;

verus! {

/// The characters of each string.
pub open spec fn string_seq_views(v: Seq<String>) -> Seq<Seq<char>> {
    v.map_values(|q: String| q@)
}

/// The order of two names: -1, 0 or 1 as the UTF-8 bytes of `a` sort before,
/// with or after those of `b`.
pub open spec fn name_order(a: Seq<char>, b: Seq<char>) -> int {
    lex_order(encode_utf8(a), encode_utf8(b))
}

/// Each name sorts with or after the ones before it.
pub open spec fn sorted_names(v: Seq<Seq<char>>) -> bool {
    forall|i: int, j: int| 0 <= i < j < v.len() ==> name_order(#[trigger] v[i], #[trigger] v[j]) <= 0
}

/// Each name sorts after the ones before it: sorted, and no name twice.
pub open spec fn strictly_sorted_names(v: Seq<Seq<char>>) -> bool {
    forall|i: int, j: int| 0 <= i < j < v.len() ==> name_order(#[trigger] v[i], #[trigger] v[j]) < 0
}

/// Names are in order 0 exactly when they are the same.
pub proof fn lemma_name_order_zero(a: Seq<char>, b: Seq<char>)
    ensures
        name_order(a, b) == 0 <==> a == b,
{
    lemma_lex_order_zero(encode_utf8(a), encode_utf8(b));
    encode_utf8_decode_utf8(a);
    encode_utf8_decode_utf8(b);
}

/// The order of the names `a` and `b`.
fn compare_names(a: &String, b: &String) -> (r: i8)
    ensures
        r == name_order(a@, b@),
{
    lex_compare(a.as_str().as_bytes(), b.as_str().as_bytes())
}

/// The names of the sorted lists `a` and `b` in one sorted list.
fn merge_names(a: &Vec<String>, b: &Vec<String>) -> (r: Vec<String>)
    requires
        sorted_names(string_seq_views(a@)),
        sorted_names(string_seq_views(b@)),
    ensures
        sorted_names(string_seq_views(r@)),
        string_seq_views(r@).to_multiset() == string_seq_views(a@).to_multiset().add(
            string_seq_views(b@).to_multiset(),
        ),
{
    broadcast use group_to_multiset_ensures, group_multiset_axioms;

    let ghost va = string_seq_views(a@);
    let ghost vb = string_seq_views(b@);
    let mut r: Vec<String> = Vec::new();
    let mut i: usize = 0;
    let mut j: usize = 0;
    assert(va.subrange(0, 0) =~= Seq::<Seq<char>>::empty());
    assert(vb.subrange(0, 0) =~= Seq::<Seq<char>>::empty());
    assert(string_seq_views(r@) =~= Seq::<Seq<char>>::empty());
    while i < a.len() || j < b.len()
        invariant
            va == string_seq_views(a@),
            vb == string_seq_views(b@),
            sorted_names(va),
            sorted_names(vb),
            i <= a@.len(),
            j <= b@.len(),
            sorted_names(string_seq_views(r@)),
            string_seq_views(r@).to_multiset() == va.subrange(0, i as int).to_multiset().add(
                vb.subrange(0, j as int).to_multiset(),
            ),
            r@.len() > 0 && i < a@.len() ==> name_order(string_seq_views(r@).last(), va[i as int]) <= 0,
            r@.len() > 0 && j < b@.len() ==> name_order(string_seq_views(r@).last(), vb[j as int]) <= 0,
        decreases a@.len() - i + b@.len() - j,
    {
        let take_a = if i < a.len() && j < b.len() {
            compare_names(&a[i], &b[j]) <= 0
        } else {
            i < a.len()
        };
        let ghost before = string_seq_views(r@);
        let ghost x: Seq<char>;
        if take_a {
            proof {
                x = va[i as int];
            }
            r.push(a[i].clone());
            i += 1;
            proof {
                assert(va.subrange(0, i as int) =~= va.subrange(0, i - 1).push(x));
            }
        } else {
            proof {
                x = vb[j as int];
                if i < a@.len() {
                    lemma_lex_order_antisym(encode_utf8(va[i as int]), encode_utf8(vb[j as int]));
                }
            }
            r.push(b[j].clone());
            j += 1;
            proof {
                assert(vb.subrange(0, j as int) =~= vb.subrange(0, j - 1).push(x));
            }
        }
        proof {
            let now = string_seq_views(r@);
            assert(now =~= before.push(x));
            to_multiset_build(before, x);
            if take_a {
                to_multiset_build(va.subrange(0, i - 1), x);
            } else {
                to_multiset_build(vb.subrange(0, j - 1), x);
            }
            assert(now.to_multiset() =~= va.subrange(0, i as int).to_multiset().add(
                vb.subrange(0, j as int).to_multiset(),
            ));
            assert forall|p: int, q: int| 0 <= p < q < now.len() implies name_order(
                #[trigger] now[p],
                #[trigger] now[q],
            ) <= 0 by {
                if q == now.len() - 1 && p < q && p < before.len() - 1 {
                    lemma_lex_order_trans(
                        encode_utf8(before[p]),
                        encode_utf8(before.last()),
                        encode_utf8(x),
                    );
                }
            }
            if i < a@.len() && take_a {
                assert(name_order(va[i - 1], va[i as int]) <= 0);
            }
            if j < b@.len() && !take_a {
                assert(name_order(vb[j - 1], vb[j as int]) <= 0);
            }
        }
    }
    assert(va.subrange(0, a@.len() as int) =~= va);
    assert(vb.subrange(0, b@.len() as int) =~= vb);
    r
}

/// The names of `v`, sorted.
fn sort_names(v: &[String]) -> (r: Vec<String>)
    ensures
        sorted_names(string_seq_views(r@)),
        string_seq_views(r@).to_multiset() == string_seq_views(v@).to_multiset(),
    decreases v@.len(),
{
    if v.len() <= 1 {
        let mut r: Vec<String> = Vec::new();
        if v.len() == 1 {
            r.push(v[0].clone());
        }
        assert(string_seq_views(r@) =~= string_seq_views(v@));
        return r;
    }
    let mid = v.len() / 2;
    let left = sort_names(vstd::slice::slice_subrange(v, 0, mid));
    let right = sort_names(vstd::slice::slice_subrange(v, mid, v.len()));
    let r = merge_names(&left, &right);
    proof {
        let whole = string_seq_views(v@);
        assert(string_seq_views(v@.subrange(0, mid as int)) =~= whole.subrange(0, mid as int));
        assert(string_seq_views(v@.subrange(mid as int, v@.len() as int)) =~= whole.subrange(
            mid as int,
            whole.len() as int,
        ));
        assert(whole =~= whole.subrange(0, mid as int) + whole.subrange(mid as int, whole.len() as int));
        lemma_multiset_commutative(
            whole.subrange(0, mid as int),
            whole.subrange(mid as int, whole.len() as int),
        );
    }
    r
}

/// The sorted list `v` with each name kept once.
fn dedup_sorted_names(v: &Vec<String>) -> (r: Vec<String>)
    requires
        sorted_names(string_seq_views(v@)),
    ensures
        strictly_sorted_names(string_seq_views(r@)),
        forall|x: Seq<char>|
            string_seq_views(r@).contains(x) <==> string_seq_views(v@).contains(x),
{
    let ghost vv = string_seq_views(v@);
    let mut r: Vec<String> = Vec::new();
    let mut i: usize = 0;
    while i < v.len()
        invariant
            vv == string_seq_views(v@),
            sorted_names(vv),
            i <= v@.len(),
            strictly_sorted_names(string_seq_views(r@)),
            forall|x: Seq<char>|
                string_seq_views(r@).contains(x) <==> vv.subrange(0, i as int).contains(x),
            i > 0 ==> r@.len() > 0 && string_seq_views(r@).last() == vv[i - 1],
            i == 0 ==> r@.len() == 0,
        decreases v@.len() - i,
    {
        let ghost before = string_seq_views(r@);
        let ghost x = vv[i as int];
        let keep = r.len() == 0 || compare_names(&r[r.len() - 1], &v[i]) != 0;
        if keep {
            r.push(v[i].clone());
        }
        proof {
            let now = string_seq_views(r@);
            assert(vv.subrange(0, i + 1) =~= vv.subrange(0, i as int).push(x));
            if keep {
                assert(now =~= before.push(x));
                if i > 0 {
                    assert(name_order(vv[i - 1], x) <= 0);
                    lemma_name_order_zero(before.last(), x);
                }
                assert forall|p: int, q: int| 0 <= p < q < now.len() implies name_order(
                    #[trigger] now[p],
                    #[trigger] now[q],
                ) < 0 by {
                    if q == now.len() - 1 && p < before.len() - 1 {
                        lemma_lex_order_trans(
                            encode_utf8(before[p]),
                            encode_utf8(before.last()),
                            encode_utf8(x),
                        );
                    }
                }
                assert forall|y: Seq<char>| now.contains(y) <==> vv.subrange(0, i + 1).contains(y) by {
                    if now.contains(y) {
                        let k = choose|k: int| 0 <= k < now.len() && #[trigger] now[k] == y;
                        if k < before.len() {
                            assert(before[k] == y);
                            assert(before.contains(y));
                            assert(vv.subrange(0, i as int).contains(y));
                            let m = choose|m: int| 0 <= m < i && #[trigger] vv.subrange(0, i as int)[m] == y;
                            assert(vv.subrange(0, i + 1)[m] == y);
                        } else {
                            assert(vv.subrange(0, i + 1)[i as int] == y);
                        }
                    }
                    if vv.subrange(0, i + 1).contains(y) {
                        let k = choose|k: int| 0 <= k < i + 1 && #[trigger] vv.subrange(0, i + 1)[k] == y;
                        if k == i {
                            assert(now[now.len() - 1] == y);
                        } else {
                            assert(vv.subrange(0, i as int)[k] == y);
                            assert(before.contains(y));
                            let m = choose|m: int| 0 <= m < before.len() && #[trigger] before[m] == y;
                            assert(now[m] == y);
                        }
                    }
                }
            } else {
                lemma_name_order_zero(before.last(), x);
                assert(before[before.len() - 1] == x);
                assert(now == before);
                assert forall|y: Seq<char>| now.contains(y) <==> vv.subrange(0, i + 1).contains(y) by {
                    if y == x {
                        assert(now[now.len() - 1] == y);
                    }
                    if vv.subrange(0, i + 1).contains(y) && y != x {
                        let k = choose|k: int| 0 <= k < i + 1 && #[trigger] vv.subrange(0, i + 1)[k] == y;
                        assert(k < i);
                        assert(vv.subrange(0, i as int)[k] == y);
                    }
                    if now.contains(y) {
                        assert(vv.subrange(0, i as int).contains(y));
                        let k = choose|k: int| 0 <= k < i && #[trigger] vv.subrange(0, i as int)[k] == y;
                        assert(vv.subrange(0, i + 1)[k] == y);
                    }
                }
            }
        }
        i += 1;
    }
    assert(vv.subrange(0, v@.len() as int) =~= vv);
    r
}

/// The names of `names` in order, each once.
pub fn sorted_name_set(names: &Vec<String>) -> (r: Vec<String>)
    ensures
        strictly_sorted_names(string_seq_views(r@)),
        forall|x: Seq<char>|
            string_seq_views(r@).contains(x) <==> string_seq_views(names@).contains(x),
{
    broadcast use group_to_multiset_ensures;

    let sorted = sort_names(names.as_slice());
    let r = dedup_sorted_names(&sorted);
    proof {
        assert forall|x: Seq<char>|
            string_seq_views(sorted@).contains(x) <==> string_seq_views(names@).contains(x) by {
            assert(string_seq_views(sorted@).to_multiset().count(x) == string_seq_views(
                names@,
            ).to_multiset().count(x));
        }
    }
    r
}

} // verus!
