use vstd::prelude::*;

verus! {

/// Inserts `x` into `s` after every element whose key is at least `x`'s key,
/// scanning from the end: on a sequence sorted by decreasing key this keeps it
/// sorted and places `x` after the elements of equal key.
pub open spec fn insert_desc<T>(s: Seq<(int, T)>, x: (int, T)) -> Seq<(int, T)>
    decreases s.len(),
{
    if s.len() == 0 {
        seq![x]
    } else if s.last().0 >= x.0 {
        s.push(x)
    } else {
        insert_desc(s.drop_last(), x).push(s.last())
    }
}

/// Stable sort by decreasing key: elements of equal key keep their order.
pub open spec fn sort_desc<T>(s: Seq<(int, T)>) -> Seq<(int, T)>
    decreases s.len(),
{
    if s.len() == 0 {
        Seq::empty()
    } else {
        insert_desc(sort_desc(s.drop_last()), s.last())
    }
}

/// Keys of an executable ranking, as mathematical integers.
pub open spec fn keyed<T>(v: Seq<(i128, T)>) -> Seq<(int, T)> {
    v.map_values(|p: (i128, T)| (p.0 as int, p.1))
}

/// The keys of `s` never increase.
pub open spec fn is_sorted_desc<T>(s: Seq<(int, T)>) -> bool {
    forall|i: int, j: int| 0 <= i < j < s.len() ==> #[trigger] s[i].0 >= #[trigger] s[j].0
}

/// Inserting at `pos` agrees with `insert_desc` when every element from `pos`
/// on has a smaller key than `x` and the element before `pos` does not.
pub proof fn lemma_insert_at<T>(s: Seq<(int, T)>, x: (int, T), pos: int)
    requires
        0 <= pos <= s.len(),
        forall|k: int| pos <= k < s.len() ==> #[trigger] s[k].0 < x.0,
        pos > 0 ==> s[pos - 1].0 >= x.0,
    ensures
        insert_desc(s, x) == s.insert(pos, x),
    decreases s.len(),
{
    if s.len() == 0 {
        assert(s.insert(pos, x) =~= seq![x]);
    } else if s.last().0 >= x.0 {
        assert(pos == s.len());
        assert(s.insert(pos, x) =~= s.push(x));
    } else {
        let d = s.drop_last();
        assert(pos < s.len());
        lemma_insert_at(d, x, pos);
        assert(d.insert(pos, x).push(s.last()) =~= s.insert(pos, x));
    }
}

/// `insert_desc` adds exactly one element.
pub proof fn lemma_insert_len<T>(s: Seq<(int, T)>, x: (int, T))
    ensures
        insert_desc(s, x).len() == s.len() + 1,
    decreases s.len(),
{
    if s.len() > 0 && s.last().0 < x.0 {
        lemma_insert_len(s.drop_last(), x);
    }
}

/// Sorting keeps the length.
pub proof fn lemma_sort_len<T>(s: Seq<(int, T)>)
    ensures
        sort_desc(s).len() == s.len(),
    decreases s.len(),
{
    if s.len() > 0 {
        lemma_sort_len(s.drop_last());
        lemma_insert_len(sort_desc(s.drop_last()), s.last());
    }
}

/// Every element of `insert_desc(s, x)` is `x` or an element of `s`.
pub proof fn lemma_insert_members<T>(s: Seq<(int, T)>, x: (int, T))
    ensures
        forall|i: int|
            0 <= i < insert_desc(s, x).len() ==> #[trigger] insert_desc(s, x)[i] == x
                || s.contains(insert_desc(s, x)[i]),
    decreases s.len(),
{
    lemma_insert_len(s, x);
    if s.len() > 0 && s.last().0 < x.0 {
        let d = s.drop_last();
        lemma_insert_members(d, x);
        lemma_insert_len(d, x);
        assert forall|i: int|
            0 <= i < insert_desc(s, x).len() implies #[trigger] insert_desc(s, x)[i] == x
            || s.contains(insert_desc(s, x)[i]) by {
            if i < insert_desc(d, x).len() {
                let e = insert_desc(d, x)[i];
                if e != x {
                    let k = choose|k: int| 0 <= k < d.len() && d[k] == e;
                    assert(s[k] == e);
                }
            } else {
                assert(insert_desc(s, x)[i] == s[s.len() - 1]);
            }
        }
    } else if s.len() > 0 {
        assert forall|i: int|
            0 <= i < insert_desc(s, x).len() implies #[trigger] insert_desc(s, x)[i] == x
            || s.contains(insert_desc(s, x)[i]) by {
            if i < s.len() {
                assert(insert_desc(s, x)[i] == s[i]);
            }
        }
    }
}

/// Every element of a sorted sequence comes from the sequence.
pub proof fn lemma_sort_members<T>(s: Seq<(int, T)>)
    ensures
        forall|i: int| 0 <= i < sort_desc(s).len() ==> s.contains(#[trigger] sort_desc(s)[i]),
    decreases s.len(),
{
    if s.len() > 0 {
        let d = s.drop_last();
        lemma_sort_members(d);
        lemma_insert_members(sort_desc(d), s.last());
        assert forall|i: int| 0 <= i < sort_desc(s).len() implies s.contains(
            #[trigger] sort_desc(s)[i],
        ) by {
            let e = sort_desc(s)[i];
            if e == s.last() {
                assert(s[s.len() - 1] == e);
            } else {
                let k = choose|k: int| 0 <= k < sort_desc(d).len() && sort_desc(d)[k] == e;
                let m = choose|m: int| 0 <= m < d.len() && d[m] == sort_desc(d)[k];
                assert(s[m] == e);
            }
        }
    }
}

/// Inserting into a sorted sequence keeps it sorted.
pub proof fn lemma_insert_sorted<T>(s: Seq<(int, T)>, x: (int, T))
    requires
        is_sorted_desc(s),
    ensures
        is_sorted_desc(insert_desc(s, x)),
        insert_desc(s, x).len() == s.len() + 1,
    decreases s.len(),
{
    lemma_insert_len(s, x);
    if s.len() > 0 && s.last().0 < x.0 {
        let d = s.drop_last();
        lemma_insert_sorted(d, x);
        lemma_insert_members(d, x);
        let r = insert_desc(s, x);
        let rd = insert_desc(d, x);
        assert forall|i: int, j: int| 0 <= i < j < r.len() implies #[trigger] r[i].0
            >= #[trigger] r[j].0 by {
            if j < rd.len() {
                assert(r[i] == rd[i] && r[j] == rd[j]);
            } else {
                assert(r[j] == s.last());
                assert(r[i] == rd[i]);
                if rd[i] != x {
                    let k = choose|k: int| 0 <= k < d.len() && d[k] == rd[i];
                    assert(s[k] == d[k]);
                }
            }
        }
    } else if s.len() > 0 {
        let r = insert_desc(s, x);
        assert forall|i: int, j: int| 0 <= i < j < r.len() implies #[trigger] r[i].0
            >= #[trigger] r[j].0 by {
            if j < s.len() {
                assert(r[i] == s[i] && r[j] == s[j]);
            } else {
                assert(r[i] == s[i]);
                assert(s[i].0 >= s[s.len() - 1].0);
            }
        }
    }
}

/// The result of `sort_desc` is sorted by decreasing key.
pub proof fn lemma_sort_sorted<T>(s: Seq<(int, T)>)
    ensures
        is_sorted_desc(sort_desc(s)),
    decreases s.len(),
{
    if s.len() > 0 {
        lemma_sort_sorted(s.drop_last());
        lemma_insert_sorted(sort_desc(s.drop_last()), s.last());
    }
}

/// Stable sort of `v` by decreasing key.
pub fn sort_by_key_desc<T: Copy>(v: &Vec<(i128, T)>) -> (res: Vec<(i128, T)>)
    ensures
        keyed(res@) == sort_desc(keyed(v@)),
{
    let mut res: Vec<(i128, T)> = Vec::new();
    let n = v.len();
    let mut i: usize = 0;
    assert(keyed(v@).take(0) =~= Seq::<(int, T)>::empty());
    assert(keyed(res@) =~= Seq::<(int, T)>::empty());
    while i < n
        invariant
            n == v@.len(),
            0 <= i <= n,
            keyed(res@) == sort_desc(keyed(v@).take(i as int)),
        decreases n - i,
    {
        let x = v[i];
        let mut pos = res.len();
        while pos > 0 && res[pos - 1].0 < x.0
            invariant
                0 <= pos <= res@.len(),
                forall|k: int| pos <= k < res@.len() ==> #[trigger] res@[k].0 < x.0,
            decreases pos,
        {
            pos -= 1;
        }
        let ghost old_res = res@;
        proof {
            let ks = keyed(old_res);
            let kx = (x.0 as int, x.1);
            assert forall|k: int| pos <= k < ks.len() implies #[trigger] ks[k].0 < kx.0 by {
                assert(ks[k].0 == old_res[k].0);
            }
            if pos > 0 {
                assert(ks[pos - 1].0 == old_res[pos - 1].0);
            }
            lemma_insert_at(ks, kx, pos as int);
            assert(keyed(v@).take(i + 1).drop_last() =~= keyed(v@).take(i as int));
            assert(keyed(v@).take(i + 1).last() == kx);
        }
        res.insert(pos, x);
        proof {
            assert(keyed(res@) =~= keyed(old_res).insert(pos as int, (x.0 as int, x.1)));
        }
        i += 1;
    }
    assert(keyed(v@).take(n as int) =~= keyed(v@));
    res
}

/// The first element of a non-empty `s` whose key is the largest.
pub open spec fn first_best<T>(s: Seq<(int, T)>) -> (int, T)
    decreases s.len(),
{
    if s.len() <= 1 {
        s[0]
    } else {
        let b = first_best(s.drop_last());
        if s.last().0 > b.0 {
            s.last()
        } else {
            b
        }
    }
}

/// `first_best` is an element of largest key, and every element before it has
/// a smaller key.
pub proof fn lemma_first_best<T>(s: Seq<(int, T)>)
    requires
        s.len() > 0,
    ensures
        forall|i: int| 0 <= i < s.len() ==> #[trigger] s[i].0 <= first_best(s).0,
        exists|j: int|
            0 <= j < s.len() && s[j] == first_best(s) && forall|i: int|
                0 <= i < j ==> #[trigger] s[i].0 < first_best(s).0,
    decreases s.len(),
{
    if s.len() == 1 {
        assert(s[0] == first_best(s));
    } else {
        let d = s.drop_last();
        lemma_first_best(d);
        let b = first_best(d);
        let j = choose|j: int|
            0 <= j < d.len() && d[j] == b && forall|i: int| 0 <= i < j ==> #[trigger] d[i].0 < b.0;
        assert forall|i: int| 0 <= i < s.len() implies #[trigger] s[i].0 <= first_best(s).0 by {
            if i < d.len() {
                assert(s[i] == d[i]);
            }
        }
        if s.last().0 > b.0 {
            let k = s.len() - 1;
            assert forall|i: int| 0 <= i < k implies #[trigger] s[i].0 < first_best(s).0 by {
                assert(s[i] == d[i]);
            }
            assert(s[k] == first_best(s));
        } else {
            assert forall|i: int| 0 <= i < j implies #[trigger] s[i].0 < first_best(s).0 by {
                assert(s[i] == d[i]);
            }
            assert(s[j] == d[j]);
        }
    }
}

/// On a sorted sequence, `x` goes first exactly when its key beats the first key.
pub proof fn lemma_insert_head<T>(s: Seq<(int, T)>, x: (int, T))
    requires
        is_sorted_desc(s),
    ensures
        insert_desc(s, x)[0] == if s.len() == 0 || x.0 > s[0].0 {
            x
        } else {
            s[0]
        },
    decreases s.len(),
{
    if s.len() > 0 {
        if s.last().0 >= x.0 {
            assert(s[0].0 >= s[s.len() - 1].0);
        } else {
            let d = s.drop_last();
            assert forall|i: int, j: int| 0 <= i < j < d.len() implies #[trigger] d[i].0
                >= #[trigger] d[j].0 by {
                assert(d[i] == s[i] && d[j] == s[j]);
            }
            lemma_insert_head(d, x);
            lemma_insert_len(d, x);
            if d.len() > 0 {
                assert(d[0] == s[0]);
            }
        }
    }
}

/// The head of the stable sort is the first element of largest key.
pub proof fn lemma_sort_head<T>(s: Seq<(int, T)>)
    requires
        s.len() > 0,
    ensures
        sort_desc(s)[0] == first_best(s),
    decreases s.len(),
{
    let d = s.drop_last();
    lemma_sort_sorted(d);
    lemma_sort_len(d);
    lemma_insert_head(sort_desc(d), s.last());
    if d.len() > 0 {
        lemma_sort_head(d);
    }
}

} // verus!
