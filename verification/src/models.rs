use vstd::prelude::*;

verus! {

/// A statistic named by an effect value.
#[derive(Debug)]
pub struct StatInfo {
    pub id_stats: i32,
    pub name_stats: String,
}

/// One value of an effect; `damage` is the amount in hundredths of a point.
#[derive(Debug)]
pub struct EffectValue {
    pub damage: i64,
    pub statistics: Option<StatInfo>,
}

/// An effect of an equipment item and its values.
#[derive(Debug)]
pub struct Effect {
    pub name_effect: String,
    pub values: Vec<EffectValue>,
}

/// An equipment item of the catalogue.
#[derive(Debug)]
pub struct Equipment {
    pub id: i32,
    pub name: String,
    pub level: i32,
    pub id_rarity: i32,
    pub id_type: i32,
    pub equipment_type: String,
    pub effects: Vec<Effect>,
}

/// A spell of a character class.
#[derive(Debug, Clone)]
pub struct Spell {
    pub id_spell: i32,
    pub name_spell: String,
}

/// Mathematical model of a [`StatInfo`].
pub struct StatInfoModel {
    pub id_stats: i32,
    pub name_stats: Seq<char>,
}

/// Mathematical model of an [`EffectValue`].
pub struct EffectValueModel {
    pub damage: i64,
    pub statistics: Option<StatInfoModel>,
}

/// Mathematical model of an [`Effect`].
pub struct EffectModel {
    pub name_effect: Seq<char>,
    pub values: Seq<EffectValueModel>,
}

/// Mathematical model of an [`Equipment`] item.
pub struct EquipmentModel {
    pub id: i32,
    pub name: Seq<char>,
    pub level: i32,
    pub id_rarity: i32,
    pub id_type: i32,
    pub equipment_type: Seq<char>,
    pub effects: Seq<EffectModel>,
}

impl View for StatInfo {
    type V = StatInfoModel;

    open spec fn view(&self) -> StatInfoModel {
        StatInfoModel { id_stats: self.id_stats, name_stats: self.name_stats@ }
    }
}

impl View for EffectValue {
    type V = EffectValueModel;

    open spec fn view(&self) -> EffectValueModel {
        EffectValueModel {
            damage: self.damage,
            statistics: match self.statistics {
                Some(s) => Some(s@),
                None => None,
            },
        }
    }
}

impl View for Effect {
    type V = EffectModel;

    open spec fn view(&self) -> EffectModel {
        EffectModel {
            name_effect: self.name_effect@,
            values: self.values@.map_values(|v: EffectValue| v@),
        }
    }
}

impl View for Equipment {
    type V = EquipmentModel;

    open spec fn view(&self) -> EquipmentModel {
        EquipmentModel {
            id: self.id,
            name: self.name@,
            level: self.level,
            id_rarity: self.id_rarity,
            id_type: self.id_type,
            equipment_type: self.equipment_type@,
            effects: self.effects@.map_values(|e: Effect| e@),
        }
    }
}

/// The models of a sequence of items.
pub open spec fn models(items: Seq<Equipment>) -> Seq<EquipmentModel> {
    items.map_values(|e: Equipment| e@)
}

impl Clone for StatInfo {
    fn clone(&self) -> (res: Self)
        ensures
            res@ == self@,
    {
        StatInfo { id_stats: self.id_stats, name_stats: self.name_stats.clone() }
    }
}

impl Clone for EffectValue {
    fn clone(&self) -> (res: Self)
        ensures
            res@ == self@,
    {
        let statistics = match &self.statistics {
            Some(s) => Some(s.clone()),
            None => None,
        };
        EffectValue { damage: self.damage, statistics }
    }
}

impl Clone for Effect {
    fn clone(&self) -> (res: Self)
        ensures
            res@ == self@,
    {
        let mut values: Vec<EffectValue> = Vec::new();
        let n = self.values.len();
        let mut i: usize = 0;
        while i < n
            invariant
                n == self.values@.len(),
                0 <= i <= n,
                values@.len() == i,
                forall|j: int| 0 <= j < i ==> #[trigger] values@[j]@ == self.values@[j]@,
            decreases n - i,
        {
            values.push(self.values[i].clone());
            i += 1;
        }
        let res = Effect { name_effect: self.name_effect.clone(), values };
        assert(res.values@.map_values(|v: EffectValue| v@) =~= self.values@.map_values(
            |v: EffectValue| v@,
        ));
        res
    }
}

impl Clone for Equipment {
    fn clone(&self) -> (res: Self)
        ensures
            res@ == self@,
    {
        let mut effects: Vec<Effect> = Vec::new();
        let n = self.effects.len();
        let mut i: usize = 0;
        while i < n
            invariant
                n == self.effects@.len(),
                0 <= i <= n,
                effects@.len() == i,
                forall|j: int| 0 <= j < i ==> #[trigger] effects@[j]@ == self.effects@[j]@,
            decreases n - i,
        {
            effects.push(self.effects[i].clone());
            i += 1;
        }
        let res = Equipment {
            id: self.id,
            name: self.name.clone(),
            level: self.level,
            id_rarity: self.id_rarity,
            id_type: self.id_type,
            equipment_type: self.equipment_type.clone(),
            effects,
        };
        assert(res.effects@.map_values(|e: Effect| e@) =~= self.effects@.map_values(
            |e: Effect| e@,
        ));
        res
    }
}

} // verus!
