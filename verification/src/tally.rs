//! Counting labels into a list sorted by label, as a `BTreeMap<String,
//! usize>` of counts iterates.

use vstd::prelude::*;
use crate::text::{
    lemma_text_antisym, lemma_text_refl, lemma_text_total, lemma_text_trans, text_le, text_le_of,
    text_lt,
};

verus! {

/// How often `l` occurs among `labels`.
pub open spec fn count_of(labels: Seq<Seq<char>>, l: Seq<char>) -> nat
    decreases labels.len(),
{
    if labels.len() == 0 {
        0
    } else {
        count_of(labels.drop_last(), l) + if labels.last() == l {
            1nat
        } else {
            0nat
        }
    }
}

/// `t` lists each distinct label of `labels` once, in increasing order, with
/// the number of its occurrences.
pub open spec fn is_tally(labels: Seq<Seq<char>>, t: Seq<(Seq<char>, nat)>) -> bool {
    &&& forall|i: int, j: int| 0 <= i < j < t.len() ==> text_lt(#[trigger] t[i].0, #[trigger] t[j].0)
    &&& forall|i: int|
        0 <= i < t.len() ==> (#[trigger] t[i]).1 == count_of(labels, t[i].0) && t[i].1 > 0
    &&& forall|m: int|
        0 <= m < labels.len() ==> exists|i: int|
            0 <= i < t.len() && (#[trigger] t[i]).0 == #[trigger] labels[m]
}

/// The counted list as values.
pub open spec fn tally_view(t: Seq<(Vec<char>, usize)>) -> Seq<(Seq<char>, nat)> {
    t.map_values(|e: (Vec<char>, usize)| (e.0@, e.1 as nat))
}

proof fn lemma_count_take(labels: Seq<Seq<char>>, k: int, x: Seq<char>)
    requires
        0 <= k < labels.len(),
    ensures
        count_of(labels.take(k + 1), x) == count_of(labels.take(k), x) + if labels[k] == x {
            1nat
        } else {
            0nat
        },
{
    assert(labels.take(k + 1).drop_last() =~= labels.take(k));
}

proof fn lemma_count_bound(labels: Seq<Seq<char>>, x: Seq<char>)
    ensures
        count_of(labels, x) <= labels.len(),
        count_of(labels, x) > 0 ==> exists|m: int| 0 <= m < labels.len() && labels[m] == x,
    decreases labels.len(),
{
    if labels.len() > 0 {
        lemma_count_bound(labels.drop_last(), x);
        if count_of(labels.drop_last(), x) > 0 {
            let m = choose|m: int| 0 <= m < labels.drop_last().len() && labels.drop_last()[m] == x;
            assert(labels[m] == x);
        }
        if labels.last() == x {
            assert(labels[labels.len() - 1] == x);
        }
    }
}

/// Counts the labels, listing each distinct one once in increasing order.
pub fn tally(labels: &Vec<Vec<char>>) -> (r: Vec<(Vec<char>, usize)>)
    ensures
        is_tally(labels@.map_values(|v: Vec<char>| v@), tally_view(r@)),
{
    let ghost all = labels@.map_values(|v: Vec<char>| v@);
    let mut t: Vec<(Vec<char>, usize)> = Vec::new();
    let mut k: usize = 0;
    assert(all.take(0) =~= Seq::<Seq<char>>::empty());
    while k < labels.len()
        invariant
            k <= labels.len(),
            all == labels@.map_values(|v: Vec<char>| v@),
            is_tally(all.take(k as int), tally_view(t@)),
        decreases labels.len() - k,
    {
        let x = &labels[k];
        let ghost tv = tally_view(t@);
        let ghost xv = all[k as int];
        assert(x@ == xv);
        let mut p: usize = 0;
        while p < t.len() && !text_le_of(x.as_slice(), t[p].0.as_slice())
            invariant
                p <= t.len(),
                tv == tally_view(t@),
                x@ == xv,
                forall|q: int| 0 <= q < p ==> !text_le(xv, #[trigger] tv[q].0),
            decreases t.len() - p,
        {
            p = p + 1;
        }
        proof {
            lemma_count_bound(all.take(k as int), xv);
            assert forall|y: Seq<char>| y != xv implies count_of(all.take(k + 1), y) == count_of(
                all.take(k as int),
                y,
            ) by {
                lemma_count_take(all, k as int, y);
            }
            lemma_count_take(all, k as int, xv);
            assert(all.take(k + 1).take(k as int) =~= all.take(k as int));
        }
        let found = p < t.len() && crate::text::chars_eq(t[p].0.as_slice(), x.as_slice());
        if found {
            let (key, cnt) = t.remove(p);
            proof {
                lemma_count_bound(all.take(k as int), xv);
            }
            t.insert(p, (key, cnt + 1));
            proof {
                let nt = tally_view(t@);
                assert(nt =~= tv.update(p as int, (xv, tv[p as int].1 + 1)));
                assert forall|i: int| 0 <= i < nt.len() && i != p implies nt[i].0 != xv by {
                    if i < p {
                        assert(text_lt(tv[i].0, tv[p as int].0));
                    } else {
                        assert(text_lt(tv[p as int].0, tv[i].0));
                    }
                }
                let ak = all.take(k + 1);
                assert forall|m: int| 0 <= m < ak.len() implies exists|i: int|
                    0 <= i < nt.len() && (#[trigger] nt[i]).0 == #[trigger] ak[m] by {
                    if m == k {
                        assert(nt[p as int].0 == ak[m]);
                    } else {
                        assert(ak[m] == all.take(k as int)[m]);
                        let i = choose|i: int| 0 <= i < tv.len() && (#[trigger] tv[i]).0 == all.take(k as int)[m];
                        assert(nt[i].0 == tv[i].0);
                    }
                }
            }
        } else {
            proof {
                assert forall|i: int| 0 <= i < tv.len() implies tv[i].0 != xv by {
                    if i < p {
                        lemma_text_refl(xv);
                    } else {
                        assert(text_le(xv, tv[p as int].0));
                        if i > p {
                            assert(text_lt(tv[p as int].0, tv[i].0));
                            if tv[i].0 == xv {
                                lemma_text_antisym(xv, tv[p as int].0);
                            }
                        }
                    }
                }
                if count_of(all.take(k as int), xv) > 0 {
                    let m = choose|m: int| 0 <= m < all.take(k as int).len() && all.take(k as int)[m] == xv;
                    let i = choose|i: int| 0 <= i < tv.len() && (#[trigger] tv[i]).0 == all.take(k as int)[m];
                    assert(tv[i].0 == xv);
                }
            }
            let key = crate::text::sub_chars(x.as_slice(), 0, x.len());
            assert(key@ =~= xv);
            t.insert(p, (key, 1));
            proof {
                let nt = tally_view(t@);
                assert(nt =~= tv.insert(p as int, (xv, 1nat)));
                assert forall|i: int, j: int| 0 <= i < j < nt.len() implies text_lt(
                    #[trigger] nt[i].0,
                    #[trigger] nt[j].0,
                ) by {
                    if j < p {
                        assert(text_lt(tv[i].0, tv[j].0));
                    } else if i < p && j == p {
                        lemma_text_total(xv, tv[i].0);
                        assert(tv[i].0 != xv);
                    } else if i < p && j > p {
                        assert(text_lt(tv[i].0, tv[j - 1].0));
                    } else if i == p {
                        assert(text_le(xv, tv[p as int].0));
                        assert(tv[p as int].0 != xv);
                        if j - 1 > p {
                            assert(text_lt(tv[p as int].0, tv[j - 1].0));
                            lemma_text_trans(xv, tv[p as int].0, tv[j - 1].0);
                            if tv[j - 1].0 == xv {
                                lemma_text_antisym(xv, tv[p as int].0);
                            }
                        }
                    } else {
                        assert(text_lt(tv[i - 1].0, tv[j - 1].0));
                    }
                }
                let ak = all.take(k + 1);
                assert forall|m: int| 0 <= m < ak.len() implies exists|i: int|
                    0 <= i < nt.len() && (#[trigger] nt[i]).0 == #[trigger] ak[m] by {
                    if m == k {
                        assert(nt[p as int].0 == ak[m]);
                    } else {
                        assert(ak[m] == all.take(k as int)[m]);
                        let i = choose|i: int| 0 <= i < tv.len() && (#[trigger] tv[i]).0 == all.take(k as int)[m];
                        if i < p {
                            assert(nt[i].0 == tv[i].0);
                        } else {
                            assert(nt[i + 1].0 == tv[i].0);
                        }
                    }
                }
                assert forall|i: int| 0 <= i < nt.len() implies (#[trigger] nt[i]).1 == count_of(
                    all.take(k + 1),
                    nt[i].0,
                ) && nt[i].1 > 0 by {
                    if i < p {
                        assert(nt[i] == tv[i]);
                    } else if i > p {
                        assert(nt[i] == tv[i - 1]);
                    }
                }
            }
        }
        k = k + 1;
    }
    assert(all.take(labels.len() as int) =~= all);
    t
}

} // verus!
