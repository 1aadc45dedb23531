use lwsim::effects::{
    AnomallyMultiEffect, CombatMultiEffect, DefaultMultiEffectState, EffectState, MultiEffect,
    MultiEffectIdx, NoData, StatMultiEffect,
};
use lwsim::{AllEffect, BarrierAnomaly, CombatStat, OneToThree, Stat, Target};

#[test]
fn new_effect_state_is_all_zero() {
    let s: EffectState<Stat> = EffectState::new(NoData);
    assert_eq!(s.effects, vec![0; 6]);
    let b: EffectState<BarrierAnomaly> = EffectState::new(6);
    assert_eq!(b.effects, vec![0; 3]);
    assert_eq!(b.data, 6);
    let c: EffectState<CombatStat> = EffectState::new(NoData);
    assert_eq!(c.effects, vec![0; 3]);
}

#[test]
fn stat_levels_are_clamped() {
    let mut s: EffectState<Stat> = EffectState::new(NoData);
    s.apply_in_place(3, Stat::YangAtk);
    assert_eq!(s.effects, vec![0, 0, 3, 0, 0, 0]);
    s.apply_in_place(15, Stat::YangAtk);
    assert_eq!(s.effects, vec![0, 0, 10, 0, 0, 0]);
    s.apply_in_place(-25, Stat::YangAtk);
    assert_eq!(s.effects, vec![0, 0, -10, 0, 0, 0]);
    s.apply_in_place(-4, Stat::Health);
    assert_eq!(s.effects, vec![-4, 0, -10, 0, 0, 0]);
}

#[test]
fn combat_levels_are_clamped() {
    let c: EffectState<CombatStat> = EffectState::new(NoData);
    let c = CombatStat::apply(CombatStat::CritAtk.idx(), 11, c);
    assert_eq!(c.effects, vec![0, 0, 10]);
    let c = CombatStat::apply(0, -3, c);
    assert_eq!(c.effects, vec![-3, 0, 10]);
}

#[test]
fn anomalies_share_their_cap() {
    let mut b: EffectState<BarrierAnomaly> = EffectState::new(6);
    b.apply_in_place(4, BarrierAnomaly::Poison);
    assert_eq!(b.effects, vec![4, 0, 0]);
    b.apply_in_place(5, BarrierAnomaly::Burn);
    assert_eq!(b.effects, vec![4, 2, 0]);
    b.apply_in_place(3, BarrierAnomaly::Paralize);
    assert_eq!(b.effects, vec![4, 2, 0]);
    assert_eq!(b.data, 6);
}

#[test]
fn anomaly_with_negative_cap_pulls_total_to_cap() {
    let b: EffectState<BarrierAnomaly> = EffectState::new(-2);
    let b = BarrierAnomaly::apply(1, 3, b);
    assert_eq!(b.effects, vec![0, -2, 0]);
    let b = BarrierAnomaly::apply(0, 3, b);
    assert_eq!(b.effects, vec![0, -2, 0]);
}

#[test]
fn slots_and_members_agree() {
    for stat in [Stat::Health, Stat::Agility, Stat::YangAtk, Stat::YangDef, Stat::YinAtk, Stat::YinDef] {
        assert_eq!(StatMultiEffect::data(stat.idx()), stat);
    }
    for i in 0..StatMultiEffect::SIZE {
        assert_eq!(StatMultiEffect::data(i).idx(), i);
    }
    for i in 0..AnomallyMultiEffect::SIZE {
        assert_eq!(AnomallyMultiEffect::data(i).idx(), i);
    }
    for i in 0..CombatMultiEffect::SIZE {
        assert_eq!(CombatMultiEffect::data(i).idx(), i);
    }
    assert_eq!(Stat::YinAtk.idx(), 4);
    assert_eq!(BarrierAnomaly::Burn.idx(), 1);
    assert_eq!(CombatStat::CritAcc.idx(), 1);
    assert_eq!(StatMultiEffect::SIZE, 6);
    assert_eq!(AnomallyMultiEffect::SIZE, 3);
    assert_eq!(CombatMultiEffect::SIZE, 3);
}

#[test]
fn world_state_has_enemy_and_characters() {
    let s = DefaultMultiEffectState::new(6, 2);
    assert_eq!(s.slot_count(), 3);
    for i in 0..3 {
        let c = s.character(i);
        assert_eq!(c.barriers.effects, vec![0; 3]);
        assert_eq!(c.barriers.data, 6);
        assert_eq!(c.stats.effects, vec![0; 6]);
        assert_eq!(c.combat.effects, vec![0; 3]);
    }
    assert_eq!(DefaultMultiEffectState::new(6, 0).slot_count(), 1);
    assert_eq!(DefaultMultiEffectState::new(6, -1).slot_count(), 0);
    assert_eq!(DefaultMultiEffectState::new(6, -7).slot_count(), 0);
}

#[test]
fn cap_wraps_like_a_cast() {
    let s = DefaultMultiEffectState::new(usize::MAX, 0);
    assert_eq!(s.character(0).barriers.data, -1);
}

#[test]
fn add_effect_touches_one_slot_only() {
    let mut s = DefaultMultiEffectState::new(6, 2);
    let before = s.clone();
    s.add_effect(AllEffect::Normal(Stat::YangAtk), 3, 1);
    assert_eq!(s.character(1).stats.effects, vec![0, 0, 3, 0, 0, 0]);
    assert_eq!(s.character(0), before.character(0));
    assert_eq!(s.character(2), before.character(2));
    assert_eq!(s.character(1).barriers, before.character(1).barriers);
    assert_eq!(s.character(1).combat, before.character(1).combat);

    s.add_effect(AllEffect::Barrier(BarrierAnomaly::Poison), 9, 2);
    assert_eq!(s.character(2).barriers.effects, vec![6, 0, 0]);
    s.add_effect(AllEffect::Combat(CombatStat::Acc), -12, 0);
    assert_eq!(s.character(0).combat.effects, vec![-10, 0, 0]);
}

#[test]
fn resource_effect_changes_nothing() {
    let mut s = DefaultMultiEffectState::new(6, 1);
    s.add_effect(AllEffect::Normal(Stat::Health), 2, 1);
    let before = s.clone();
    s.add_effect(AllEffect::Resource(serde_json::Value::from(5)), 7, 1);
    assert_eq!(s, before);
}

#[test]
fn combat_levels_add_enemy_and_shooter() {
    let mut s = DefaultMultiEffectState::new(6, 2);
    s.add_effect(AllEffect::Combat(CombatStat::Acc), 2, 0);
    s.add_effect(AllEffect::Combat(CombatStat::Acc), 3, 1);
    s.add_effect(AllEffect::Combat(CombatStat::CritAtk), -4, 1);
    assert_eq!(s.combat_levels(1), vec![5, 0, -4]);
    assert_eq!(s.combat_levels(2), vec![2, 0, 0]);
    assert_eq!(s.combat_levels(0), vec![4, 0, 0]);
}

#[test]
fn can_add_effect_matches_what_add_effect_accepts() {
    let mut s = DefaultMultiEffectState::new(6, 1);
    assert!(s.can_add_effect(&AllEffect::Barrier(BarrierAnomaly::Burn), 0, 1));
    assert!(!s.can_add_effect(&AllEffect::Barrier(BarrierAnomaly::Burn), -1, 1));
    assert!(!s.can_add_effect(&AllEffect::Normal(Stat::Health), 1, 2));
    assert!(!s.can_add_effect(&AllEffect::Normal(Stat::Health), 1, -1));
    assert!(s.can_add_effect(&AllEffect::Normal(Stat::Health), i64::MAX, 1));
    s.add_effect(AllEffect::Normal(Stat::Health), 1, 1);
    assert!(!s.can_add_effect(&AllEffect::Normal(Stat::Health), i64::MAX, 1));
    assert!(s.can_add_effect(&AllEffect::Normal(Stat::Agility), i64::MAX, 1));
    s.add_effect(AllEffect::Combat(CombatStat::CritAcc), -1, 0);
    assert!(!s.can_add_effect(&AllEffect::Combat(CombatStat::CritAcc), i64::MIN, 0));
    assert!(s.can_add_effect(&AllEffect::Resource(serde_json::Value::Null), i64::MIN, 0));
}

#[test]
fn skill_positions() {
    assert_eq!(OneToThree::One.to_int(), 0);
    assert_eq!(OneToThree::Two.to_int(), 1);
    assert_eq!(OneToThree::Three.to_int(), 2);
}

#[test]
fn skill_recipients() {
    assert_eq!(Target::All.recipients(&OneToThree::Two, 3), vec![0]);
    assert_eq!(Target::Solo.recipients(&OneToThree::One, 3), vec![0]);
    assert_eq!(Target::Selff.recipients(&OneToThree::Three, 3), vec![3]);
    assert_eq!(Target::Selff.recipients(&OneToThree::One, 5), vec![1]);
    assert_eq!(Target::Team.recipients(&OneToThree::One, 3), vec![1, 2, 3]);
    assert_eq!(Target::Team.recipients(&OneToThree::One, 0), Vec::<i64>::new());
}

#[test]
fn effects_clone_to_themselves() {
    let effs = [
        AllEffect::Normal(Stat::YinDef),
        AllEffect::Combat(CombatStat::CritAtk),
        AllEffect::Barrier(BarrierAnomaly::Paralize),
        AllEffect::Resource(serde_json::Value::String("faith".to_string())),
    ];
    for e in effs.iter() {
        assert_eq!(&e.clone(), e);
    }
}

#[test]
fn cloned_state_accepts_effects_and_keeps_the_original() {
    let mut s = DefaultMultiEffectState::new(6, 1);
    s.add_effect(AllEffect::Barrier(BarrierAnomaly::Burn), 2, 0);
    let mut c = s.clone();
    assert_eq!(c, s);
    c.add_effect(AllEffect::Barrier(BarrierAnomaly::Poison), 9, 0);
    assert_eq!(c.character(0).barriers.effects, vec![4, 2, 0]);
    assert_eq!(s.character(0).barriers.effects, vec![0, 2, 0]);
}
