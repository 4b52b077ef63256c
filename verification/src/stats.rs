use vstd::prelude::*;

verus! {

/// Number of statistics that a [`StatVector`] tracks.
pub const STAT_COUNT: usize = 22;

/// Largest magnitude, in hundredths, that a stat vector component may reach.
pub const COMPONENT_LIMIT: i64 = 0x4000_0000_0000_0000;

/// Position of statistic `id` in a stat vector, or `STAT_COUNT` when the
/// statistic is not tracked.
pub open spec fn stat_slot(id: i32) -> int {
    if id == 20 { 0 }
    else if id == 31 { 1 }
    else if id == 41 { 2 }
    else if id == 80 { 3 }
    else if id == 120 { 4 }
    else if id == 122 { 5 }
    else if id == 123 { 6 }
    else if id == 124 { 7 }
    else if id == 125 { 8 }
    else if id == 1052 { 9 }
    else if id == 1053 { 10 }
    else if id == 180 { 11 }
    else if id == 150 { 12 }
    else if id == 160 { 13 }
    else if id == 1068 { 14 }
    else if id == 1051 { 15 }
    else if id == 1054 { 16 }
    else if id == 173 { 17 }
    else if id == 1055 { 18 }
    else if id == 171 { 19 }
    else if id == 149 { 20 }
    else if id == 175 { 21 }
    else { 22 }
}

/// Whether statistic `id` has a place in a stat vector.
pub open spec fn is_tracked(id: i32) -> bool {
    stat_slot(id) < 22
}

/// Value of statistic `id` in the vector `v`; untracked statistics read as zero.
pub open spec fn stat_of(v: Seq<int>, id: i32) -> int {
    if is_tracked(id) { v[stat_slot(id)] } else { 0 }
}

/// The all-zero stat vector.
pub open spec fn zero_stats() -> Seq<int> {
    Seq::new(22, |i: int| 0int)
}

/// Component-wise sum of two stat vectors.
pub open spec fn add_stats(a: Seq<int>, b: Seq<int>) -> Seq<int> {
    Seq::new(22, |i: int| a[i] + b[i])
}

/// Adds `amount` to the component of statistic `id`, when that statistic is tracked.
pub open spec fn add_stat(v: Seq<int>, id: i32, amount: int) -> Seq<int> {
    if is_tracked(id) { v.update(stat_slot(id), v[stat_slot(id)] + amount) } else { v }
}

/// Distinct tracked statistics have distinct places.
pub proof fn lemma_slot_injective(x: i32, y: i32)
    requires
        is_tracked(x),
        is_tracked(y),
        stat_slot(x) == stat_slot(y),
    ensures
        x == y,
{
}

/// Every component of `v` lies within `[-b, b]`.
pub open spec fn within(v: Seq<int>, b: int) -> bool {
    &&& v.len() == 22
    &&& forall|i: int| 0 <= i < 22 ==> -b <= #[trigger] v[i] <= b
}

/// Position of statistic `id` in a stat vector (`STAT_COUNT` when untracked).
pub fn id_to_idx(id: i32) -> (idx: usize)
    ensures
        idx == stat_slot(id),
{
    match id {
        20 => 0,
        31 => 1,
        41 => 2,
        80 => 3,
        120 => 4,
        122 => 5,
        123 => 6,
        124 => 7,
        125 => 8,
        1052 => 9,
        1053 => 10,
        180 => 11,
        150 => 12,
        160 => 13,
        1068 => 14,
        1051 => 15,
        1054 => 16,
        173 => 17,
        1055 => 18,
        171 => 19,
        149 => 20,
        175 => 21,
        _ => 22,
    }
}

/// Amounts of the tracked statistics, in hundredths of a point.
#[derive(Clone, Copy, Debug)]
pub struct StatVector {
    pub values: [i64; 22],
}

impl View for StatVector {
    type V = Seq<int>;

    open spec fn view(&self) -> Seq<int> {
        Seq::new(22, |i: int| self.values@[i] as int)
    }
}

impl Default for StatVector {
    fn default() -> (res: Self)
        ensures
            res@ == zero_stats(),
    {
        let res = StatVector { values: [0i64; 22] };
        assert(res@ =~= zero_stats());
        res
    }
}

impl StatVector {
    /// The amount of statistic `id`, zero when the statistic is not tracked.
    pub fn get(&self, id: i32) -> (res: i64)
        ensures
            res == stat_of(self@, id),
    {
        let idx = id_to_idx(id);
        if idx < 22 {
            self.values[idx]
        } else {
            0
        }
    }

    /// Adds `other` to `self`, component by component.
    pub fn add_assign(&mut self, other: &StatVector)
        requires
            forall|i: int|
                0 <= i < 22 ==> i64::MIN <= #[trigger] old(self)@[i] + other@[i] <= i64::MAX,
        ensures
            final(self)@ == add_stats(old(self)@, other@),
    {
        let mut i: usize = 0;
        while i < 22
            invariant
                0 <= i <= 22,
                forall|j: int|
                    0 <= j < 22 ==> i64::MIN <= #[trigger] old(self)@[j] + other@[j] <= i64::MAX,
                forall|j: int|
                    0 <= j < i ==> #[trigger] self.values@[j] == old(self).values@[j] + other.values@[j],
                forall|j: int| i <= j < 22 ==> #[trigger] self.values@[j] == old(self).values@[j],
            decreases 22 - i,
        {
            assert(i64::MIN <= old(self)@[i as int] + other@[i as int] <= i64::MAX);
            self.values[i] = self.values[i] + other.values[i];
            i += 1;
        }
        assert(self@ =~= add_stats(old(self)@, other@));
    }

    /// Adds `amount` to the component of statistic `id`; untracked statistics are ignored.
    pub fn add_to(&mut self, id: i32, amount: i64)
        requires
            is_tracked(id) ==> i64::MIN <= old(self)@[stat_slot(id)] + amount <= i64::MAX,
        ensures
            final(self)@ == add_stat(old(self)@, id, amount as int),
    {
        let idx = id_to_idx(id);
        if idx < 22 {
            self.values[idx] = self.values[idx] + amount;
            assert(self@ =~= add_stat(old(self)@, id, amount as int));
        } else {
            assert(self@ =~= add_stat(old(self)@, id, amount as int));
        }
    }
}

} // verus!
