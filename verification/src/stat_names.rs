use vstd::prelude::*;
use crate::models::{Equipment, EquipmentModel, EffectModel, EffectValueModel, models};

verus! {

/// The statistic names that the values `vals` give, recorded over `m`: a later
/// name of a statistic replaces an earlier one.
pub open spec fn names_of_values(m: Map<i32, Seq<char>>, vals: Seq<EffectValueModel>) -> Map<
    i32,
    Seq<char>,
>
    decreases vals.len(),
{
    if vals.len() == 0 {
        m
    } else {
        let prev = names_of_values(m, vals.drop_last());
        match vals.last().statistics {
            Some(s) => prev.insert(s.id_stats, s.name_stats),
            None => prev,
        }
    }
}

/// The statistic names that the values of the effects `effs` give, recorded over `m`.
pub open spec fn names_of_effects(m: Map<i32, Seq<char>>, effs: Seq<EffectModel>) -> Map<
    i32,
    Seq<char>,
>
    decreases effs.len(),
{
    if effs.len() == 0 {
        m
    } else {
        names_of_values(names_of_effects(m, effs.drop_last()), effs.last().values)
    }
}

/// The name of each statistic that the catalogue `items` mentions: the last
/// name given to it, in catalogue order.
pub open spec fn stat_names(items: Seq<EquipmentModel>) -> Map<i32, Seq<char>>
    decreases items.len(),
{
    if items.len() == 0 {
        Map::empty()
    } else {
        names_of_effects(stat_names(items.drop_last()), items.last().effects)
    }
}

/// The pairs of an executable list, names as characters.
pub open spec fn name_list(list: Seq<(i32, String)>) -> Seq<(i32, Seq<char>)> {
    list.map_values(|p: (i32, String)| (p.0, p.1@))
}

/// `list` holds exactly the entries of `m`, by strictly increasing id.
pub open spec fn lists_by_id(list: Seq<(i32, Seq<char>)>, m: Map<i32, Seq<char>>) -> bool {
    &&& forall|i: int, j: int| 0 <= i < j < list.len() ==> #[trigger] list[i].0 < #[trigger] list[j].0
    &&& forall|i: int|
        0 <= i < list.len() ==> m.contains_key(#[trigger] list[i].0) && m[list[i].0] == list[i].1
    &&& forall|id: i32| #[trigger] m.contains_key(id) ==> exists|i: int| 0 <= i < list.len() && list[i].0 == id
}

/// Records `name` for statistic `id` in `list`, which stays ordered by id.
fn record_name(list: &mut Vec<(i32, String)>, id: i32, name: &String, Ghost(m): Ghost<Map<i32, Seq<char>>>)
    requires
        lists_by_id(name_list(old(list)@), m),
    ensures
        lists_by_id(name_list(final(list)@), m.insert(id, name@)),
{
    let ghost l = name_list(list@);
    let n = list.len();
    let mut k: usize = 0;
    while k < n && list[k].0 < id
        invariant
            n == list@.len(),
            l == name_list(list@),
            0 <= k <= n,
            forall|i: int| 0 <= i < k ==> #[trigger] l[i].0 < id,
        decreases n - k,
    {
        k += 1;
    }
    let ghost m2 = m.insert(id, name@);
    if k < n && list[k].0 == id {
        list.set(k, (id, name.clone()));
        proof {
            let l2 = name_list(list@);
            assert(l2 =~= l.update(k as int, (id, name@)));
            assert forall|i: int| 0 <= i < l.len() && i != k implies #[trigger] l[i].0 != id by {
                if i > k {
                    assert(l[k as int].0 < l[i].0);
                }
            }
            assert forall|i: int| 0 <= i < l2.len() implies m2.contains_key(#[trigger] l2[i].0)
                && m2[l2[i].0] == l2[i].1 by {
                if i != k {
                    assert(l2[i] == l[i]);
                }
            }
            assert forall|x: i32| #[trigger] m2.contains_key(x) implies exists|i: int|
                0 <= i < l2.len() && l2[i].0 == x by {
                if x == id {
                    assert(l2[k as int].0 == id);
                } else {
                    let i = choose|i: int| 0 <= i < l.len() && l[i].0 == x;
                    assert(l2[i].0 == x);
                }
            }
        }
    } else {
        list.insert(k, (id, name.clone()));
        proof {
            let l2 = name_list(list@);
            assert(l2 =~= l.insert(k as int, (id, name@)));
            assert forall|i: int| k <= i < l.len() implies #[trigger] l[i].0 > id by {
                if i > k {
                    assert(l[k as int].0 < l[i].0);
                }
            }
            assert forall|i: int, j: int| 0 <= i < j < l2.len() implies #[trigger] l2[i].0
                < #[trigger] l2[j].0 by {
                if j < k {
                    assert(l2[i] == l[i] && l2[j] == l[j]);
                } else if j == k {
                    assert(l2[i] == l[i]);
                } else if i < k {
                    assert(l2[i] == l[i] && l2[j] == l[j - 1]);
                } else if i == k {
                    assert(l2[j] == l[j - 1]);
                } else {
                    assert(l2[i] == l[i - 1] && l2[j] == l[j - 1]);
                }
            }
            assert forall|i: int| 0 <= i < l2.len() implies m2.contains_key(#[trigger] l2[i].0)
                && m2[l2[i].0] == l2[i].1 by {
                if i < k {
                    assert(l2[i] == l[i]);
                } else if i > k {
                    assert(l2[i] == l[i - 1]);
                }
            }
            assert forall|x: i32| #[trigger] m2.contains_key(x) implies exists|i: int|
                0 <= i < l2.len() && l2[i].0 == x by {
                if x == id {
                    assert(l2[k as int].0 == id);
                } else {
                    let i = choose|i: int| 0 <= i < l.len() && l[i].0 == x;
                    if i < k {
                        assert(l2[i].0 == x);
                    } else {
                        assert(l2[i + 1].0 == x);
                    }
                }
            }
        }
    }
}

/// Every statistic that the catalogue `items` mentions, with the last name
/// given to it, by increasing id.
pub fn stat_names_by_id(items: &Vec<Equipment>) -> (res: Vec<(i32, String)>)
    ensures
        lists_by_id(name_list(res@), stat_names(models(items@))),
{
    let ghost im = models(items@);
    let mut list: Vec<(i32, String)> = Vec::new();
    let n = items.len();
    let mut i: usize = 0;
    assert(im.take(0) =~= Seq::<EquipmentModel>::empty());
    assert(name_list(list@) =~= Seq::<(i32, Seq<char>)>::empty());
    while i < n
        invariant
            n == items@.len(),
            im == models(items@),
            0 <= i <= n,
            lists_by_id(name_list(list@), stat_names(im.take(i as int))),
        decreases n - i,
    {
        let item = &items[i];
        let ghost effs = item@.effects;
        let ghost start = stat_names(im.take(i as int));
        proof {
            assert(im.take(i + 1).drop_last() =~= im.take(i as int));
            assert(im.take(i + 1).last() == item@);
        }
        let ne = item.effects.len();
        let mut j: usize = 0;
        assert(effs.take(0) =~= Seq::<EffectModel>::empty());
        while j < ne
            invariant
                ne == item.effects@.len(),
                effs == item@.effects,
                effs.len() == ne,
                0 <= j <= ne,
                lists_by_id(name_list(list@), names_of_effects(start, effs.take(j as int))),
            decreases ne - j,
        {
            let effect = &item.effects[j];
            let ghost vals = effs[j as int].values;
            let ghost before = names_of_effects(start, effs.take(j as int));
            assert(vals == effect.values@.map_values(|e: crate::models::EffectValue| e@));
            proof {
                assert(effs.take(j + 1).drop_last() =~= effs.take(j as int));
                assert(effs.take(j + 1).last() == effs[j as int]);
            }
            let nv = effect.values.len();
            let mut k: usize = 0;
            assert(vals.take(0) =~= Seq::<EffectValueModel>::empty());
            while k < nv
                invariant
                    nv == effect.values@.len(),
                    vals == effect.values@.map_values(|e: crate::models::EffectValue| e@),
                    vals.len() == nv,
                    0 <= k <= nv,
                    lists_by_id(name_list(list@), names_of_values(before, vals.take(k as int))),
                decreases nv - k,
            {
                let ev = &effect.values[k];
                let ghost cur = names_of_values(before, vals.take(k as int));
                proof {
                    assert(vals.take(k + 1).drop_last() =~= vals.take(k as int));
                    assert(vals.take(k + 1).last() == ev@);
                }
                match &ev.statistics {
                    Some(s) => {
                        record_name(&mut list, s.id_stats, &s.name_stats, Ghost(cur));
                    },
                    None => {},
                }
                k += 1;
            }
            assert(vals.take(nv as int) =~= vals);
            j += 1;
        }
        assert(effs.take(ne as int) =~= effs);
        i += 1;
    }
    assert(im.take(n as int) =~= im);
    list
}

} // verus!
