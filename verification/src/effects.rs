use vstd::prelude::*;
use core::marker::PhantomData;

use crate::{AllEffect, BarrierAnomaly, CombatStat, Stat};
use crate::laws::{
    law_barrier_effect, law_combat_effect, law_effect_allowed, law_stat_effect,
    lemma_cloned_i64_is_equal, lemma_effect_keeps_wf, lemma_effect_ok_allows_apply,
    lemma_total_of_three, lemma_total_zeros,
};

verus! {

/// A closed family of effects that share one level table: `SIZE` slots,
/// and a way back from a slot to the effect that owns it.
pub trait MultiEffect<T>: Sized + core::fmt::Debug + Clone {
    const SIZE: usize;

    /// The effect that owns slot `idx`.
    spec fn member(idx: nat) -> T;

    /// The effect in slot `idx`.
    fn data(idx: usize) -> (r: T)
        requires
            idx < Self::SIZE,
        ensures
            r == Self::member(idx as nat),
    ;
}

/// An effect kind whose levels live in an `EffectState`.
pub trait MultiEffectIdx: Sized + core::fmt::Debug + Clone {
    type Colle: MultiEffect<Self>;
    type StateData: Clone;

    /// The slot of this effect in the level table.
    spec fn slot(&self) -> nat;

    /// When `apply` may be called (it panics or overflows elsewhere).
    spec fn apply_ok(idx: int, lvl: int, levels: Seq<i64>, data: Self::StateData) -> bool;

    /// The level table after `apply`.
    spec fn applied(idx: int, lvl: int, levels: Seq<i64>, data: Self::StateData) -> Seq<i64>;

    /// The slot of this effect; `Colle::data` leads back to it.
    fn idx(&self) -> (r: usize)
        ensures
            r == self.slot(),
            r < Self::Colle::SIZE,
            Self::Colle::member(r as nat) == *self,
    ;

    /// Every slot belongs to the effect that reports it.
    proof fn lemma_member_slot(idx: nat)
        requires
            idx < Self::Colle::SIZE,
        ensures
            Self::Colle::member(idx).slot() == idx,
    ;

    /// The state after an effect of level `lvl` lands on slot `idx`; the data is kept.
    fn apply(idx: usize, lvl: i64, target: EffectState<Self>) -> (r: EffectState<Self>)
        requires
            target.effects@.len() == Self::Colle::SIZE,
            idx < Self::Colle::SIZE,
            Self::apply_ok(idx as int, lvl as int, target.effects@, target.data),
        ensures
            r.effects@.len() == Self::Colle::SIZE,
            r.data == target.data,
            r.effects@ == Self::applied(idx as int, lvl as int, target.effects@, target.data),
            forall|i: int|
                0 <= i < r.effects@.len() && i != idx ==> #[trigger] r.effects@[i]
                    == target.effects@[i],
    ;
}

/// `x` clamped into the level range `[-10, 10]` that stats and combat stats share.
pub open spec fn clamp_level(x: int) -> int {
    if x < -10 {
        -10
    } else if x > 10 {
        10
    } else {
        x
    }
}

/// `x` is representable as an `i64`.
pub open spec fn fits_i64(x: int) -> bool {
    i64::MIN <= x <= i64::MAX
}

/// The sum of a level table.
pub open spec fn total(s: Seq<i64>) -> int
    decreases s.len(),
{
    if s.len() == 0 {
        0
    } else {
        total(s.drop_last()) + s.last()
    }
}

/// Summing the table from the left never leaves `i64`.
pub open spec fn partial_totals_fit(s: Seq<i64>) -> bool {
    forall|k: int| 0 <= k <= s.len() ==> fits_i64(#[trigger] total(s.take(k)))
}

/// How much a barrier anomaly of level `lvl` actually adds: no more than the room left
/// under the shared cap.
pub open spec fn barrier_gain(lvl: int, levels: Seq<i64>, cap: i64) -> int {
    if lvl <= cap - total(levels) {
        lvl
    } else {
        cap - total(levels)
    }
}

/// The state data of a family that carries none. It stands where `()` would: in verified
/// code `()` cannot meet the `Clone` bound of `MultiEffectIdx::StateData`.
#[derive(Clone, Copy, Debug, Hash, PartialEq, Eq)]
pub struct NoData;

/// The current levels of every effect of one family, plus the family's own data.
/// The fields are public because the contracts of `MultiEffectIdx::apply` speak of them.
#[derive(Debug, Hash, PartialEq, Eq)]
pub struct EffectState<T: MultiEffectIdx> {
    pub _phantom: PhantomData<T>,
    pub effects: Vec<i64>,
    pub data: T::StateData,
}

impl<T: MultiEffectIdx> Clone for EffectState<T> {
    /// The same levels, and a clone of the data.
    fn clone(&self) -> (r: Self)
        ensures
            r.effects@ == self.effects@,
            cloned(self.data, r.data),
    {
        let r = EffectState {
            _phantom: PhantomData,
            effects: self.effects.clone(),
            data: self.data.clone(),
        };
        proof {
            assert(r.effects@ =~= self.effects@);
            assert(cloned(self.data, r.data));
        }
        r
    }
}

impl<T: MultiEffectIdx> EffectState<T> {
    /// Every slot of the family has a level.
    pub open spec fn wf(&self) -> bool {
        self.effects@.len() == T::Colle::SIZE
    }

    /// A state with every level at 0.
    pub fn new(default_data: T::StateData) -> (r: Self)
        ensures
            r.wf(),
            r.data == default_data,
            r.effects@ == Seq::new(T::Colle::SIZE as nat, |i: int| 0i64),
    {
        let mut effects: Vec<i64> = Vec::new();
        let n = T::Colle::SIZE;
        let mut i: usize = 0;
        while i < n
            invariant
                i <= n,
                n == T::Colle::SIZE,
                effects@ == Seq::new(i as nat, |j: int| 0i64),
            decreases n - i,
        {
            effects.push(0);
            i = i + 1;
        }
        EffectState { _phantom: PhantomData, data: default_data, effects }
    }

    /// Raises (or lowers) the level of `typ` by `lvl`, as `T::apply` says.
    pub fn apply_in_place(&mut self, lvl: i64, typ: T)
        requires
            old(self).wf(),
            forall|d: T::StateData| #[trigger] cloned(old(self).data, d)
                ==> T::apply_ok(typ.slot() as int, lvl as int, old(self).effects@, d),
        ensures
            final(self).wf(),
            cloned(old(self).data, final(self).data),
            final(self).effects@ == T::applied(typ.slot() as int, lvl as int, old(self).effects@, final(self).data),
            forall|i: int|
                0 <= i < final(self).effects@.len() && i != typ.slot() ==> #[trigger] final(self).effects@[i]
                    == old(self).effects@[i],
    {
        *self = T::apply(typ.idx(), lvl, self.clone());
    }
}

impl MultiEffectIdx for Stat {
    type Colle = StatMultiEffect;
    type StateData = NoData;

    open spec fn slot(&self) -> nat {
        match self {
            Stat::Health => 0,
            Stat::Agility => 1,
            Stat::YangAtk => 2,
            Stat::YangDef => 3,
            Stat::YinAtk => 4,
            Stat::YinDef => 5,
        }
    }

    open spec fn apply_ok(idx: int, lvl: int, levels: Seq<i64>, data: NoData) -> bool {
        fits_i64(levels[idx] + lvl)
    }

    open spec fn applied(idx: int, lvl: int, levels: Seq<i64>, data: NoData) -> Seq<i64> {
        levels.update(idx, clamp_level(levels[idx] + lvl) as i64)
    }

    fn idx(&self) -> (r: usize) {
        match self {
            Stat::Health => 0,
            Stat::Agility => 1,
            Stat::YangAtk => 2,
            Stat::YangDef => 3,
            Stat::YinAtk => 4,
            Stat::YinDef => 5,
        }
    }

    proof fn lemma_member_slot(idx: nat) {
    }

    fn apply(idx: usize, lvl: i64, target: EffectState<Self>) -> (r: EffectState<Self>)
        ensures
            ({
                let raised = target.effects@[idx as int] + lvl;
                r.effects@[idx as int] == if raised < -10 {
                    -10
                } else if raised > 10 {
                    10
                } else {
                    raised
                }
            }),
    {
        let mut target = target;
        let raised = target.effects[idx] + lvl;
        target.effects[idx] = if raised < -10 {
            -10
        } else if raised > 10 {
            10
        } else {
            raised
        };
        target
    }
}

/// The level table of the six base stats.
#[derive(Clone, Copy, Debug)]
pub struct StatMultiEffect {}

impl MultiEffect<Stat> for StatMultiEffect {
    const SIZE: usize = 6;

    open spec fn member(idx: nat) -> Stat {
        if idx == 0 {
            Stat::Health
        } else if idx == 1 {
            Stat::Agility
        } else if idx == 2 {
            Stat::YangAtk
        } else if idx == 3 {
            Stat::YangDef
        } else if idx == 4 {
            Stat::YinAtk
        } else {
            Stat::YinDef
        }
    }

    fn data(idx: usize) -> (r: Stat) {
        match idx {
            0 => Stat::Health,
            1 => Stat::Agility,
            2 => Stat::YangAtk,
            3 => Stat::YangDef,
            4 => Stat::YinAtk,
            _ => Stat::YinDef,
        }
    }
}

impl MultiEffectIdx for BarrierAnomaly {
    type Colle = AnomallyMultiEffect;
    /// The cap that all anomalies share.
    type StateData = i64;

    open spec fn slot(&self) -> nat {
        match self {
            BarrierAnomaly::Poison => 0,
            BarrierAnomaly::Burn => 1,
            BarrierAnomaly::Paralize => 2,
        }
    }

    open spec fn apply_ok(idx: int, lvl: int, levels: Seq<i64>, cap: i64) -> bool {
        &&& lvl >= 0
        &&& partial_totals_fit(levels)
        &&& fits_i64(cap - total(levels))
        &&& fits_i64(levels[idx] + barrier_gain(lvl, levels, cap))
    }

    open spec fn applied(idx: int, lvl: int, levels: Seq<i64>, cap: i64) -> Seq<i64> {
        levels.update(idx, (levels[idx] + barrier_gain(lvl, levels, cap)) as i64)
    }

    fn idx(&self) -> (r: usize) {
        match self {
            BarrierAnomaly::Poison => 0,
            BarrierAnomaly::Burn => 1,
            BarrierAnomaly::Paralize => 2,
        }
    }

    proof fn lemma_member_slot(idx: nat) {
    }

    fn apply(idx: usize, lvl: i64, target: EffectState<Self>) -> (r: EffectState<Self>)
        ensures
            ({
                let levels = target.effects@;
                let room = target.data - (levels[0] + levels[1] + levels[2]);
                r.effects@[idx as int] == levels[idx as int] + if lvl <= room {
                    lvl as int
                } else {
                    room
                }
            }),
    {
        proof {
            lemma_total_of_three(target.effects@);
        }
        let mut target = target;
        let n = target.effects.len();
        let mut tot: i64 = 0;
        let mut j: usize = 0;
        while j < n
            invariant
                n == target.effects@.len(),
                j <= n,
                partial_totals_fit(target.effects@),
                tot == total(target.effects@.take(j as int)),
            decreases n - j,
        {
            proof {
                let s = target.effects@;
                assert(s.take(j + 1).drop_last() =~= s.take(j as int));
                assert(fits_i64(total(s.take(j + 1))));
            }
            tot = tot + target.effects[j];
            j = j + 1;
        }
        proof {
            assert(target.effects@.take(n as int) =~= target.effects@);
        }
        let room = target.data - tot;
        let lvl = if lvl <= room {
            lvl
        } else {
            room
        };
        target.effects[idx] += lvl;
        target
    }
}

/// The level table of the barrier anomalies, which share one cap.
#[derive(Clone, Copy, Debug)]
pub struct AnomallyMultiEffect {}

impl MultiEffect<BarrierAnomaly> for AnomallyMultiEffect {
    const SIZE: usize = 3;

    open spec fn member(idx: nat) -> BarrierAnomaly {
        if idx == 0 {
            BarrierAnomaly::Poison
        } else if idx == 1 {
            BarrierAnomaly::Burn
        } else {
            BarrierAnomaly::Paralize
        }
    }

    fn data(idx: usize) -> (r: BarrierAnomaly) {
        match idx {
            0 => BarrierAnomaly::Poison,
            1 => BarrierAnomaly::Burn,
            _ => BarrierAnomaly::Paralize,
        }
    }
}

impl MultiEffectIdx for CombatStat {
    type Colle = CombatMultiEffect;
    type StateData = NoData;

    open spec fn slot(&self) -> nat {
        match self {
            CombatStat::Acc => 0,
            CombatStat::CritAcc => 1,
            CombatStat::CritAtk => 2,
        }
    }

    open spec fn apply_ok(idx: int, lvl: int, levels: Seq<i64>, data: NoData) -> bool {
        fits_i64(levels[idx] + lvl)
    }

    open spec fn applied(idx: int, lvl: int, levels: Seq<i64>, data: NoData) -> Seq<i64> {
        levels.update(idx, clamp_level(levels[idx] + lvl) as i64)
    }

    fn idx(&self) -> (r: usize) {
        match self {
            CombatStat::Acc => 0,
            CombatStat::CritAcc => 1,
            CombatStat::CritAtk => 2,
        }
    }

    proof fn lemma_member_slot(idx: nat) {
    }

    fn apply(idx: usize, lvl: i64, target: EffectState<Self>) -> (r: EffectState<Self>)
        ensures
            ({
                let raised = target.effects@[idx as int] + lvl;
                r.effects@[idx as int] == if raised < -10 {
                    -10
                } else if raised > 10 {
                    10
                } else {
                    raised
                }
            }),
    {
        let mut target = target;
        let raised = target.effects[idx] + lvl;
        target.effects[idx] = if raised < -10 {
            -10
        } else if raised > 10 {
            10
        } else {
            raised
        };
        target
    }
}

/// The level table of the combat stats.
#[derive(Clone, Copy, Debug)]
pub struct CombatMultiEffect {}

impl MultiEffect<CombatStat> for CombatMultiEffect {
    const SIZE: usize = 3;

    open spec fn member(idx: nat) -> CombatStat {
        if idx == 0 {
            CombatStat::Acc
        } else if idx == 1 {
            CombatStat::CritAcc
        } else {
            CombatStat::CritAtk
        }
    }

    fn data(idx: usize) -> (r: CombatStat) {
        match idx {
            0 => CombatStat::Acc,
            1 => CombatStat::CritAcc,
            _ => CombatStat::CritAtk,
        }
    }
}

/// Every level lies in `[-10, 10]`.
pub open spec fn levels_bounded(levels: Seq<i64>) -> bool {
    forall|i: int| 0 <= i < levels.len() ==> -10 <= #[trigger] levels[i] <= 10
}

/// The barrier anomalies all lie on the side of 0 where the cap is, and together they
/// never pass it.
pub open spec fn barrier_wf(levels: Seq<i64>, cap: i64) -> bool {
    if cap >= 0 {
        &&& forall|i: int| 0 <= i < levels.len() ==> 0 <= #[trigger] levels[i]
        &&& total(levels) <= cap
    } else {
        &&& forall|i: int| 0 <= i < levels.len() ==> #[trigger] levels[i] <= 0
        &&& cap <= total(levels)
    }
}

/// The levels of one character (slot 0 of a `DefaultMultiEffectState` is the enemy).
pub struct CharLevels {
    pub barriers: Seq<i64>,
    pub barrier_cap: i64,
    pub stats: Seq<i64>,
    pub combat: Seq<i64>,
}

/// The levels of a character that nothing has touched yet.
pub open spec fn fresh_levels(barrier_cap: i64) -> CharLevels {
    CharLevels {
        barriers: Seq::new(3, |i: int| 0i64),
        barrier_cap,
        stats: Seq::new(6, |i: int| 0i64),
        combat: Seq::new(3, |i: int| 0i64),
    }
}

/// Tables of the right sizes, stat levels in range, anomalies under their cap.
pub open spec fn char_wf(c: CharLevels) -> bool {
    &&& c.barriers.len() == 3
    &&& c.stats.len() == 6
    &&& c.combat.len() == 3
    &&& levels_bounded(c.stats)
    &&& levels_bounded(c.combat)
    &&& barrier_wf(c.barriers, c.barrier_cap)
}

/// When `eff` at level `lvl` may be added: a stat or combat stat must not overflow when raised,
/// and an anomaly must not have a negative level (the game defines no such thing).
pub open spec fn effect_ok(c: CharLevels, eff: AllEffect, lvl: int) -> bool {
    match eff {
        AllEffect::Normal(stat) => fits_i64(c.stats[stat.slot() as int] + lvl),
        AllEffect::Combat(cs) => fits_i64(c.combat[cs.slot() as int] + lvl),
        AllEffect::Barrier(_) => lvl >= 0,
        AllEffect::Resource(_) => true,
    }
}

/// The levels of a character after `eff` at level `lvl` is added.
pub open spec fn with_effect(c: CharLevels, eff: AllEffect, lvl: int) -> CharLevels {
    match eff {
        AllEffect::Normal(stat) => CharLevels {
            stats: Stat::applied(stat.slot() as int, lvl, c.stats, NoData),
            ..c
        },
        AllEffect::Combat(cs) => CharLevels {
            combat: CombatStat::applied(cs.slot() as int, lvl, c.combat, NoData),
            ..c
        },
        AllEffect::Barrier(b) => CharLevels {
            barriers: BarrierAnomaly::applied(b.slot() as int, lvl, c.barriers, c.barrier_cap),
            ..c
        },
        AllEffect::Resource(_) => c,
    }
}

/// The effect levels of one character.
#[derive(Debug, Hash, PartialEq, Eq)]
pub struct CharacterEffectState {
    pub barriers: EffectState<BarrierAnomaly>,
    pub stats: EffectState<Stat>,
    pub combat: EffectState<CombatStat>,
}

impl View for CharacterEffectState {
    type V = CharLevels;

    open spec fn view(&self) -> CharLevels {
        CharLevels {
            barriers: self.barriers.effects@,
            barrier_cap: self.barriers.data,
            stats: self.stats.effects@,
            combat: self.combat.effects@,
        }
    }
}

impl Clone for CharacterEffectState {
    /// A copy with the same levels.
    fn clone(&self) -> (r: Self)
        ensures
            r@ == self@,
    {
        let r = CharacterEffectState {
            barriers: self.barriers.clone(),
            stats: self.stats.clone(),
            combat: self.combat.clone(),
        };
        proof {
            lemma_cloned_i64_is_equal(self.barriers.data, r.barriers.data);
        }
        r
    }
}

impl CharacterEffectState {
    fn new(barrier_count: usize) -> (r: Self)
        ensures
            r@ == fresh_levels(barrier_count as i64),
    {
        let r = CharacterEffectState {
            barriers: EffectState::new(barrier_count as i64),
            stats: EffectState::new(NoData),
            combat: EffectState::new(NoData),
        };
        assert(r@.barriers =~= fresh_levels(barrier_count as i64).barriers);
        assert(r@.stats =~= fresh_levels(barrier_count as i64).stats);
        assert(r@.combat =~= fresh_levels(barrier_count as i64).combat);
        r
    }
}

/// The effect levels of the enemy (slot 0) and of every character (slots 1 and up).
#[derive(Debug, Hash, PartialEq, Eq)]
pub struct DefaultMultiEffectState {
    states: Vec<CharacterEffectState>,
}

impl View for DefaultMultiEffectState {
    type V = Seq<CharLevels>;

    closed spec fn view(&self) -> Seq<CharLevels> {
        self.states@.map_values(|c: CharacterEffectState| c@)
    }
}

impl Clone for DefaultMultiEffectState {
    /// A copy with the same levels in every slot.
    fn clone(&self) -> (r: Self)
        ensures
            r@ == self@,
    {
        proof {
            use_type_invariant(self);
        }
        let states = self.states.clone();
        proof {
            assert forall|i: int| 0 <= i < states@.len() implies #[trigger] states@[i]@ == self.states@[i]@ by {
                assert(cloned(self.states@[i], states@[i]));
            }
            assert(states@.map_values(|c: CharacterEffectState| c@) =~= self@);
        }
        DefaultMultiEffectState { states }
    }
}

impl DefaultMultiEffectState {
    /// Every slot holds well-formed levels: no operation can break this.
    #[verifier::type_invariant]
    spec fn wf(&self) -> bool {
        forall|i: int| 0 <= i < self@.len() ==> char_wf(#[trigger] self@[i])
    }

    /// The enemy plus `char_count` characters (none at all when `char_count` is negative),
    /// all untouched, with anomalies capped at `barrier_count`.
    pub fn new(barrier_count: usize, char_count: i64) -> (r: Self)
        ensures
            r@.len() == if char_count >= 0 {
                char_count + 1
            } else {
                0
            },
            forall|i: int| 0 <= i < r@.len() ==> #[trigger] r@[i] == fresh_levels(
                barrier_count as i64,
            ),
    {
        let mut states: Vec<CharacterEffectState> = Vec::new();
        if char_count >= 0 {
            let mut i: i64 = 0;
            loop
                invariant_except_break
                    0 <= i <= char_count,
                    states@.len() == i,
                    forall|k: int| 0 <= k < states@.len() ==> #[trigger] states@[k]@ == fresh_levels(
                        barrier_count as i64,
                    ),
                ensures
                    states@.len() == char_count + 1,
                    forall|k: int| 0 <= k < states@.len() ==> #[trigger] states@[k]@ == fresh_levels(
                        barrier_count as i64,
                    ),
                decreases char_count - i,
            {
                states.push(CharacterEffectState::new(barrier_count));
                if i == char_count {
                    break ;
                }
                i = i + 1;
            }
        }
        proof {
            lemma_total_zeros(3);
            assert forall|i: int| 0 <= i < states@.len() implies char_wf(#[trigger] states@[i]@) by {
                assert(states@[i]@ == fresh_levels(barrier_count as i64));
            }
        }
        DefaultMultiEffectState { states }
    }

    /// Adds `eff` at level `lvl` to slot `to` (0 is the enemy); every other slot, and every
    /// other table of that slot, stays as it was.
    pub fn add_effect(&mut self, eff: AllEffect, lvl: i64, to: i64)
        requires
            0 <= to < old(self)@.len(),
            effect_ok(old(self)@[to as int], eff, lvl as int),
        ensures
            final(self)@ == old(self)@.update(to as int, with_effect(old(self)@[to as int], eff, lvl as int)),
            final(self)@.len() == old(self)@.len(),
            forall|i: int| 0 <= i < old(self)@.len() && i != to ==> #[trigger] final(self)@[i] == old(self)@[i],
            eff matches AllEffect::Normal(s) ==> {
                let before = old(self)@[to as int];
                let after = final(self)@[to as int];
                let raised = before.stats[s.slot() as int] + lvl;
                &&& after.stats == before.stats.update(
                    s.slot() as int,
                    (if raised < -10 {
                        -10
                    } else if raised > 10 {
                        10
                    } else {
                        raised
                    }) as i64,
                )
                &&& after.barriers == before.barriers
                &&& after.barrier_cap == before.barrier_cap
                &&& after.combat == before.combat
            },
            eff matches AllEffect::Combat(cs) ==> {
                let before = old(self)@[to as int];
                let after = final(self)@[to as int];
                let raised = before.combat[cs.slot() as int] + lvl;
                &&& after.combat == before.combat.update(
                    cs.slot() as int,
                    (if raised < -10 {
                        -10
                    } else if raised > 10 {
                        10
                    } else {
                        raised
                    }) as i64,
                )
                &&& after.barriers == before.barriers
                &&& after.barrier_cap == before.barrier_cap
                &&& after.stats == before.stats
            },
            eff matches AllEffect::Barrier(b) ==> {
                let before = old(self)@[to as int];
                let after = final(self)@[to as int];
                let room = before.barrier_cap - (before.barriers[0] + before.barriers[1]
                    + before.barriers[2]);
                &&& after.barriers == before.barriers.update(
                    b.slot() as int,
                    (before.barriers[b.slot() as int] + if lvl <= room {
                        lvl as int
                    } else {
                        room
                    }) as i64,
                )
                &&& after.barrier_cap == before.barrier_cap
                &&& after.stats == before.stats
                &&& after.combat == before.combat
            },
            eff is Resource ==> final(self)@ == old(self)@,
    {
        proof {
            use_type_invariant(&*self);
            let c = self@[to as int];
            assert(char_wf(c));
            match eff {
                AllEffect::Normal(s) => law_stat_effect(c, s, lvl as int),
                AllEffect::Combat(cs) => law_combat_effect(c, cs, lvl as int),
                AllEffect::Barrier(b) => law_barrier_effect(c, b, lvl as int),
                AllEffect::Resource(_) => {},
            }
        }
        let ghost before = self@;
        let mut states: Vec<CharacterEffectState> = Vec::new();
        std::mem::swap(&mut states, &mut self.states);
        proof {
            assert(before[to as int] == states@[to as int]@);
            lemma_effect_ok_allows_apply(before[to as int], eff, lvl as int);
        }
        let slots = states.len();
        assert(to < slots);
        let target = &mut states[to as usize];
        match eff {
            AllEffect::Barrier(barrier) => target.barriers.apply_in_place(lvl, barrier),
            AllEffect::Combat(combatstat) => target.combat.apply_in_place(lvl, combatstat),
            AllEffect::Normal(stat) => target.stats.apply_in_place(lvl, stat),
            AllEffect::Resource(_) => (),
        }
        let ghost after = states@.map_values(|c: CharacterEffectState| c@);
        proof {
            assert(after =~= before.update(to as int, with_effect(before[to as int], eff, lvl as int)));
            lemma_effect_keeps_wf(before[to as int], eff, lvl as int);
            assert forall|i: int| 0 <= i < states@.len() implies char_wf(#[trigger] states@[i]@) by {
                assert(states@[i]@ == after[i]);
                if i != to {
                    assert(after[i] == before[i]);
                }
            }
        }
        self.states = states;
    }

    /// How many slots there are: the enemy and the characters.
    pub fn slot_count(&self) -> (r: usize)
        ensures
            r == self@.len(),
    {
        self.states.len()
    }

    /// The levels of slot `idx`.
    pub fn character(&self, idx: i64) -> (r: &CharacterEffectState)
        requires
            0 <= idx < self@.len(),
        ensures
            r@ == self@[idx as int],
            char_wf(r@),
    {
        proof {
            use_type_invariant(self);
        }
        let slots = self.states.len();
        assert(idx < slots);
        &self.states[idx as usize]
    }

    /// The combat levels that act when slot `idx` shoots: its own plus the enemy's, slot by slot.
    pub fn combat_levels(&self, idx: i64) -> (r: Vec<i64>)
        requires
            0 <= idx < self@.len(),
        ensures
            r@.len() == 3,
            forall|k: int| 0 <= k < 3 ==> #[trigger] r@[k] == self@[idx as int].combat[k] + self@[0].combat[k],
    {
        let char = self.character(idx);
        let enemy = self.character(0);
        let mut combat: Vec<i64> = Vec::new();
        let mut k: usize = 0;
        while k < 3
            invariant
                k <= 3,
                char@ == self@[idx as int],
                enemy@ == self@[0],
                char_wf(char@),
                char_wf(enemy@),
                combat@.len() == k,
                forall|j: int| 0 <= j < k ==> #[trigger] combat@[j] == char@.combat[j] + enemy@.combat[j],
            decreases 3 - k,
        {
            combat.push(char.combat.effects[k] + enemy.combat.effects[k]);
            k = k + 1;
        }
        combat
    }

    /// Whether `add_effect(eff, lvl, to)` may be called: `to` names a slot, and the effect
    /// neither overflows a level nor is a negative anomaly.
    pub fn can_add_effect(&self, eff: &AllEffect, lvl: i64, to: i64) -> (r: bool)
        ensures
            r == (0 <= to < self@.len() && effect_ok(self@[to as int], *eff, lvl as int)),
            0 <= to < self@.len() && i64::MIN + 10 <= lvl <= i64::MAX - 10 && !(*eff is Barrier)
                ==> r,
            0 <= to < self@.len() && *eff is Barrier ==> (r == (lvl >= 0)),
            !(0 <= to < self@.len()) ==> !r,
    {
        proof {
            use_type_invariant(self);
            if 0 <= to < self@.len() && i64::MIN + 10 <= lvl <= i64::MAX - 10 && !(*eff is Barrier) {
                law_effect_allowed(self@[to as int], *eff, lvl as int);
            }
        }
        if to < 0 || to as u64 >= self.states.len() as u64 {
            return false;
        }
        let c = self.character(to);
        match eff {
            AllEffect::Normal(stat) => c.stats.effects[stat.idx()].checked_add(lvl).is_some(),
            AllEffect::Combat(cs) => c.combat.effects[cs.idx()].checked_add(lvl).is_some(),
            AllEffect::Barrier(_) => lvl >= 0,
            AllEffect::Resource(_) => true,
        }
    }
}

/// The sizes of the three level tables: six base stats, three anomalies, three combat stats.
pub proof fn lemma_table_sizes()
    ensures
        StatMultiEffect::SIZE == 6,
        AnomallyMultiEffect::SIZE == 3,
        CombatMultiEffect::SIZE == 3,
{
}

} // verus!
