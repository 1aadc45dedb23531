use vstd::prelude::*;

use crate::effects::{
    barrier_gain, barrier_wf, char_wf, clamp_level, effect_ok, fits_i64, levels_bounded,
    partial_totals_fit, total, with_effect, CharLevels, MultiEffectIdx, NoData,
};
use crate::{recipients_of, AllEffect, BarrierAnomaly, CombatStat, OneToThree, Stat, Target};

verus! {

/// Replacing one level changes the total by the difference.
pub proof fn lemma_total_update(s: Seq<i64>, i: int, v: i64)
    requires
        0 <= i < s.len(),
    ensures
        total(s.update(i, v)) == total(s) - s[i] + v,
    decreases s.len(),
{
    let u = s.update(i, v);
    if i == s.len() - 1 {
        assert(u.drop_last() =~= s.drop_last());
    } else {
        lemma_total_update(s.drop_last(), i, v);
        assert(u.drop_last() =~= s.drop_last().update(i, v));
    }
}

/// A table of zeros sums to zero.
pub proof fn lemma_total_zeros(n: nat)
    ensures
        total(Seq::new(n, |i: int| 0i64)) == 0,
    decreases n,
{
    if n > 0 {
        lemma_total_zeros((n - 1) as nat);
        assert(Seq::new(n, |i: int| 0i64).drop_last() =~= Seq::new((n - 1) as nat, |i: int| 0i64));
    }
}

/// With no negative level, every running total lies between 0 and the whole total.
pub proof fn lemma_total_prefix_nonneg(s: Seq<i64>, k: int)
    requires
        forall|i: int| 0 <= i < s.len() ==> 0 <= #[trigger] s[i],
        0 <= k <= s.len(),
    ensures
        0 <= total(s.take(k)) <= total(s),
    decreases s.len(),
{
    if k == s.len() {
        assert(s.take(k) =~= s);
        if s.len() > 0 {
            lemma_total_prefix_nonneg(s.drop_last(), s.len() - 1);
            assert(s.drop_last().take(s.len() - 1) =~= s.drop_last());
        }
    } else {
        lemma_total_prefix_nonneg(s.drop_last(), k);
        assert(s.drop_last().take(k) =~= s.take(k));
        lemma_total_prefix_nonneg(s.drop_last(), s.len() - 1);
        assert(s.drop_last().take(s.len() - 1) =~= s.drop_last());
    }
}

/// With no positive level, every running total lies between the whole total and 0.
pub proof fn lemma_total_prefix_nonpos(s: Seq<i64>, k: int)
    requires
        forall|i: int| 0 <= i < s.len() ==> #[trigger] s[i] <= 0,
        0 <= k <= s.len(),
    ensures
        total(s) <= total(s.take(k)) <= 0,
    decreases s.len(),
{
    if k == s.len() {
        assert(s.take(k) =~= s);
        if s.len() > 0 {
            lemma_total_prefix_nonpos(s.drop_last(), s.len() - 1);
            assert(s.drop_last().take(s.len() - 1) =~= s.drop_last());
        }
    } else {
        lemma_total_prefix_nonpos(s.drop_last(), k);
        assert(s.drop_last().take(k) =~= s.take(k));
        lemma_total_prefix_nonpos(s.drop_last(), s.len() - 1);
        assert(s.drop_last().take(s.len() - 1) =~= s.drop_last());
    }
}

/// Raising a base stat keeps every stat level inside `[-10, 10]`: the raised one is clamped
/// there and the others do not move.
pub proof fn lemma_stat_levels_stay_bounded(idx: int, lvl: int, levels: Seq<i64>)
    requires
        0 <= idx < levels.len(),
        levels_bounded(levels),
    ensures
        levels_bounded(Stat::applied(idx, lvl, levels, NoData)),
        Stat::applied(idx, lvl, levels, NoData)[idx] == clamp_level(levels[idx] + lvl),
        forall|i: int|
            0 <= i < levels.len() && i != idx ==> #[trigger] Stat::applied(
                idx,
                lvl,
                levels,
                NoData,
            )[i] == levels[i],
{
}

/// Raising a combat stat keeps every combat level inside `[-10, 10]`.
pub proof fn lemma_combat_levels_stay_bounded(idx: int, lvl: int, levels: Seq<i64>)
    requires
        0 <= idx < levels.len(),
        levels_bounded(levels),
    ensures
        levels_bounded(CombatStat::applied(idx, lvl, levels, NoData)),
        CombatStat::applied(idx, lvl, levels, NoData)[idx] == clamp_level(levels[idx] + lvl),
{
}

/// On anomaly tables that respect their cap, adding an anomaly of any non-negative level
/// can always be done, keeps the cap respected, and brings the total of all anomalies to
/// the old total plus `lvl`, but never past the cap.
pub proof fn lemma_barrier_cap_kept(idx: int, lvl: int, levels: Seq<i64>, cap: i64)
    requires
        0 <= idx < levels.len(),
        0 <= lvl <= i64::MAX,
        barrier_wf(levels, cap),
    ensures
        BarrierAnomaly::apply_ok(idx, lvl, levels, cap),
        barrier_wf(BarrierAnomaly::applied(idx, lvl, levels, cap), cap),
        total(BarrierAnomaly::applied(idx, lvl, levels, cap)) == if total(levels) + lvl <= cap {
            total(levels) + lvl
        } else {
            cap as int
        },
{
    let gain = barrier_gain(lvl, levels, cap);
    let nv = levels[idx] + gain;
    if cap >= 0 {
        assert forall|k: int| 0 <= k <= levels.len() implies fits_i64(
            #[trigger] total(levels.take(k)),
        ) by {
            lemma_total_prefix_nonneg(levels, k);
        }
        lemma_total_update(levels, idx, 0);
        lemma_total_prefix_nonneg(levels.update(idx, 0), levels.len() as int);
        assert(levels.update(idx, 0).take(levels.len() as int) =~= levels.update(idx, 0));
        assert(0 <= nv <= cap);
        lemma_total_update(levels, idx, nv as i64);
    } else {
        assert forall|k: int| 0 <= k <= levels.len() implies fits_i64(
            #[trigger] total(levels.take(k)),
        ) by {
            lemma_total_prefix_nonpos(levels, k);
        }
        lemma_total_update(levels, idx, 0);
        lemma_total_prefix_nonpos(levels.update(idx, 0), levels.len() as int);
        assert(levels.update(idx, 0).take(levels.len() as int) =~= levels.update(idx, 0));
        assert(cap <= nv <= 0);
        lemma_total_update(levels, idx, nv as i64);
    }
    assert(partial_totals_fit(levels));
}

/// Every effect that may be added keeps a character's levels well-formed: stats and combat
/// stats stay within `[-10, 10]` and the anomalies under their shared cap.
pub proof fn lemma_effect_keeps_wf(c: CharLevels, eff: AllEffect, lvl: int)
    requires
        char_wf(c),
        fits_i64(lvl),
        effect_ok(c, eff, lvl),
    ensures
        char_wf(with_effect(c, eff, lvl)),
{
    match eff {
        AllEffect::Normal(stat) => lemma_stat_levels_stay_bounded(stat.slot() as int, lvl, c.stats),
        AllEffect::Combat(cs) => lemma_combat_levels_stay_bounded(cs.slot() as int, lvl, c.combat),
        AllEffect::Barrier(b) => lemma_barrier_cap_kept(
            b.slot() as int,
            lvl,
            c.barriers,
            c.barrier_cap,
        ),
        AllEffect::Resource(_) => {},
    }
}

/// A resource effect has no level table: it leaves every level where it was.
pub proof fn lemma_resource_changes_nothing(c: CharLevels, value: serde_json::Value, lvl: int)
    ensures
        with_effect(c, AllEffect::Resource(value), lvl) == c,
{
}

/// On a well-formed character, an effect that may be added can be handed to its family's
/// `apply`: nothing overflows on the way.
pub proof fn lemma_effect_ok_allows_apply(c: CharLevels, eff: AllEffect, lvl: int)
    requires
        char_wf(c),
        fits_i64(lvl),
        effect_ok(c, eff, lvl),
    ensures
        match eff {
            AllEffect::Normal(stat) => Stat::apply_ok(stat.slot() as int, lvl, c.stats, NoData),
            AllEffect::Combat(cs) => CombatStat::apply_ok(cs.slot() as int, lvl, c.combat, NoData),
            AllEffect::Barrier(b) => BarrierAnomaly::apply_ok(
                b.slot() as int,
                lvl,
                c.barriers,
                c.barrier_cap,
            ),
            AllEffect::Resource(_) => true,
        },
{
    if let AllEffect::Barrier(b) = eff {
        lemma_barrier_cap_kept(b.slot() as int, lvl, c.barriers, c.barrier_cap);
    }
}

/// A clone of an `i64` is the same number: applying an anomaly in place keeps its cap.
pub proof fn lemma_cloned_i64_is_equal(a: i64, b: i64)
    requires
        cloned(a, b),
    ensures
        a == b,
{
}

/// A clone of `NoData` is `NoData`: applying a stat or combat stat in place keeps its data.
pub proof fn lemma_cloned_no_data_is_equal(a: NoData, b: NoData)
    requires
        cloned(a, b),
    ensures
        a == b,
{
}

/// Adding an effect changes only the table of its own kind: stats for `Normal`, combat stats
/// for `Combat`, anomalies (not their cap) for `Barrier`, and nothing for `Resource`.
pub proof fn lemma_effect_changes_own_table(c: CharLevels, eff: AllEffect, lvl: int)
    ensures
        with_effect(c, eff, lvl).barrier_cap == c.barrier_cap,
        !(eff is Barrier) ==> with_effect(c, eff, lvl).barriers == c.barriers,
        !(eff is Normal) ==> with_effect(c, eff, lvl).stats == c.stats,
        !(eff is Combat) ==> with_effect(c, eff, lvl).combat == c.combat,
{
}

/// The slot of every effect in its table: base stats in the order health, agility, yang
/// attack, yang defence, yin attack, yin defence; anomalies poison, burn, paralysis; combat
/// stats accuracy, crit accuracy, crit damage.
pub proof fn law_slots()
    ensures
        Stat::Health.slot() == 0,
        Stat::Agility.slot() == 1,
        Stat::YangAtk.slot() == 2,
        Stat::YangDef.slot() == 3,
        Stat::YinAtk.slot() == 4,
        Stat::YinDef.slot() == 5,
        BarrierAnomaly::Poison.slot() == 0,
        BarrierAnomaly::Burn.slot() == 1,
        BarrierAnomaly::Paralize.slot() == 2,
        CombatStat::Acc.slot() == 0,
        CombatStat::CritAcc.slot() == 1,
        CombatStat::CritAtk.slot() == 2,
{
}

/// A three-slot table sums to its three levels.
pub proof fn lemma_total_of_three(s: Seq<i64>)
    requires
        s.len() == 3,
    ensures
        total(s) == s[0] + s[1] + s[2],
{
    let s2 = s.drop_last();
    let s1 = s2.drop_last();
    let s0 = s1.drop_last();
    assert(s0.len() == 0);
    assert(total(s0) == 0);
    assert(total(s1) == total(s0) + s1.last());
    assert(total(s2) == total(s1) + s2.last());
    assert(total(s) == total(s2) + s.last());
}

/// Raising a base stat by any `lvl`, negative or not, moves its level to the old level plus
/// `lvl`, cut off at -10 below and 10 above; no other level moves.
pub proof fn law_stat_apply_clamps(idx: int, lvl: int, levels: Seq<i64>)
    requires
        0 <= idx < levels.len(),
    ensures
        Stat::applied(idx, lvl, levels, NoData) == levels.update(
            idx,
            (if levels[idx] + lvl < -10 {
                -10
            } else if levels[idx] + lvl > 10 {
                10
            } else {
                levels[idx] + lvl
            }) as i64,
        ),
{
}

/// Raising a combat stat clamps the same way as a base stat.
pub proof fn law_combat_apply_clamps(idx: int, lvl: int, levels: Seq<i64>)
    requires
        0 <= idx < levels.len(),
    ensures
        CombatStat::applied(idx, lvl, levels, NoData) == levels.update(
            idx,
            (if levels[idx] + lvl < -10 {
                -10
            } else if levels[idx] + lvl > 10 {
                10
            } else {
                levels[idx] + lvl
            }) as i64,
        ),
{
}

/// Adding an anomaly of level `lvl` to a three-slot table raises its slot by `lvl`, or by only
/// the room left under the cap (the cap minus the sum of the three levels) when that is less.
pub proof fn law_barrier_apply_caps(idx: int, lvl: int, levels: Seq<i64>, cap: i64)
    requires
        0 <= idx < 3,
        levels.len() == 3,
    ensures
        BarrierAnomaly::applied(idx, lvl, levels, cap) == levels.update(
            idx,
            (levels[idx] + if lvl <= cap - (levels[0] + levels[1] + levels[2]) {
                lvl
            } else {
                cap - (levels[0] + levels[1] + levels[2])
            }) as i64,
        ),
{
    lemma_total_of_three(levels);
}

/// Adding a base-stat effect of any level, debuffs included, to a character sets that stat to
/// its old level plus `lvl`, clamped to `[-10, 10]`; the other stats, the anomalies, their cap
/// and the combat stats stay.
pub proof fn law_stat_effect(c: CharLevels, s: Stat, lvl: int)
    requires
        c.stats.len() == 6,
    ensures
        ({
            let raised = c.stats[s.slot() as int] + lvl;
            with_effect(c, AllEffect::Normal(s), lvl).stats == c.stats.update(
                s.slot() as int,
                (if raised < -10 {
                    -10
                } else if raised > 10 {
                    10
                } else {
                    raised
                }) as i64,
            )
        }),
        with_effect(c, AllEffect::Normal(s), lvl).barriers == c.barriers,
        with_effect(c, AllEffect::Normal(s), lvl).barrier_cap == c.barrier_cap,
        with_effect(c, AllEffect::Normal(s), lvl).combat == c.combat,
{
    law_stat_apply_clamps(s.slot() as int, lvl, c.stats);
}

/// Adding a combat-stat effect clamps that combat stat the same way and leaves the rest.
pub proof fn law_combat_effect(c: CharLevels, cs: CombatStat, lvl: int)
    requires
        c.combat.len() == 3,
    ensures
        ({
            let raised = c.combat[cs.slot() as int] + lvl;
            with_effect(c, AllEffect::Combat(cs), lvl).combat == c.combat.update(
                cs.slot() as int,
                (if raised < -10 {
                    -10
                } else if raised > 10 {
                    10
                } else {
                    raised
                }) as i64,
            )
        }),
        with_effect(c, AllEffect::Combat(cs), lvl).barriers == c.barriers,
        with_effect(c, AllEffect::Combat(cs), lvl).barrier_cap == c.barrier_cap,
        with_effect(c, AllEffect::Combat(cs), lvl).stats == c.stats,
{
    law_combat_apply_clamps(cs.slot() as int, lvl, c.combat);
}

/// Adding an anomaly effect raises that anomaly by `lvl` or by the room left under the cap,
/// whichever is less, and leaves the cap, the stats and the combat stats.
pub proof fn law_barrier_effect(c: CharLevels, b: BarrierAnomaly, lvl: int)
    requires
        c.barriers.len() == 3,
    ensures
        ({
            let room = c.barrier_cap - (c.barriers[0] + c.barriers[1] + c.barriers[2]);
            with_effect(c, AllEffect::Barrier(b), lvl).barriers == c.barriers.update(
                b.slot() as int,
                (c.barriers[b.slot() as int] + if lvl <= room {
                    lvl
                } else {
                    room
                }) as i64,
            )
        }),
        with_effect(c, AllEffect::Barrier(b), lvl).barrier_cap == c.barrier_cap,
        with_effect(c, AllEffect::Barrier(b), lvl).stats == c.stats,
        with_effect(c, AllEffect::Barrier(b), lvl).combat == c.combat,
{
    law_barrier_apply_caps(b.slot() as int, lvl, c.barriers, c.barrier_cap);
}

/// Base-stat effects stack: two effects on the same stat that stay inside `[-10, 10]` add up.
pub proof fn law_stat_effects_stack(c: CharLevels, s: Stat, a: int, b: int)
    requires
        c.stats.len() == 6,
        -10 <= c.stats[s.slot() as int] + a <= 10,
        -10 <= c.stats[s.slot() as int] + a + b <= 10,
    ensures
        with_effect(with_effect(c, AllEffect::Normal(s), a), AllEffect::Normal(s), b).stats[s.slot() as int]
            == c.stats[s.slot() as int] + a + b,
{
    law_stat_effect(c, s, a);
    law_stat_effect(with_effect(c, AllEffect::Normal(s), a), s, b);
}

/// On a well-formed character every stat or combat-stat effect of a level in
/// `[i64::MIN + 10, i64::MAX - 10]` may be added, debuffs included, and every anomaly of a
/// level that is not negative.
pub proof fn law_effect_allowed(c: CharLevels, eff: AllEffect, lvl: int)
    requires
        char_wf(c),
        i64::MIN + 10 <= lvl <= i64::MAX - 10,
        eff is Barrier ==> lvl >= 0,
    ensures
        effect_ok(c, eff, lvl),
{
    match eff {
        AllEffect::Normal(s) => assert(-10 <= c.stats[s.slot() as int] <= 10),
        AllEffect::Combat(cs) => assert(-10 <= c.combat[cs.slot() as int] <= 10),
        _ => {},
    }
}

/// A skill effect aimed at `Selff` lands on exactly one slot: the skill's position (0, 1 or 2)
/// plus one.
pub proof fn law_self_recipients(k: OneToThree, n: nat)
    ensures
        recipients_of(Target::Selff, k, n) == seq![
            (1 + match k {
                OneToThree::One => 0int,
                OneToThree::Two => 1int,
                OneToThree::Three => 2int,
            }) as i64,
        ],
{
}

/// `Solo` and `All` effects land on the enemy alone (slot 0); `Team` effects land on each of
/// the `n` characters, slots 1 to `n` in order.
pub proof fn law_enemy_and_team_recipients(k: OneToThree, n: nat)
    requires
        n <= i64::MAX,
    ensures
        recipients_of(Target::Solo, k, n) == seq![0i64],
        recipients_of(Target::All, k, n) == seq![0i64],
        recipients_of(Target::Team, k, n).len() == n,
        forall|i: int| 0 <= i < n ==> #[trigger] recipients_of(Target::Team, k, n)[i] == i + 1,
{
}

} // verus!
