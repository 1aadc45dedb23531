use vstd::prelude::*;

pub mod effects;
pub mod laws;

verus! {

/// A status anomaly that eats into a character's barriers.
#[derive(Debug, Clone, Copy, Hash, PartialEq, Eq, Structural)]
pub enum BarrierAnomaly {
    Poison,
    Burn,
    Paralize,
}

/// One of the six base stats of a character.
#[derive(Debug, Clone, Copy, Hash, PartialEq, Eq, Structural)]
pub enum Stat {
    Health,
    Agility,
    YangAtk,
    YangDef,
    YinAtk,
    YinDef,
}

/// A stat that only matters while a bullet is being resolved.
#[derive(Debug, Clone, Copy, Hash, PartialEq, Eq, Structural)]
pub enum CombatStat {
    Acc,
    CritAcc,
    CritAtk,
}

/// Lets `serde_json::Value` stand in the library's types; the library never looks inside one.
#[verifier::external_type_specification]
#[verifier::external_body]
pub struct ExJsonValue(serde_json::Value);

/// `serde_json` derives `Clone` for `Value`: the clone is the same JSON value.
pub assume_specification[ <serde_json::Value as Clone>::clone ](v: &serde_json::Value) -> (r: serde_json::Value)
    ensures
        r == *v,
;

/// What an effect acts on.
#[derive(Debug, PartialEq, Eq)]
pub enum AllEffect {
    Normal(Stat),
    Combat(CombatStat),
    Barrier(BarrierAnomaly),
    /// A game resource; it has no level table, so it changes no state.
    Resource(serde_json::Value),
}

impl Clone for AllEffect {
    fn clone(&self) -> (r: Self)
        ensures
            r == *self,
    {
        match self {
            AllEffect::Normal(stat) => AllEffect::Normal(*stat),
            AllEffect::Combat(cs) => AllEffect::Combat(*cs),
            AllEffect::Barrier(b) => AllEffect::Barrier(*b),
            AllEffect::Resource(value) => AllEffect::Resource(value.clone()),
        }
    }
}

/// Which of a character's three skills is used.
#[derive(Debug, Clone, Copy, PartialEq, Eq, Structural)]
pub enum OneToThree {
    One,
    Two,
    Three,
}

impl OneToThree {
    /// The skill's position, counted from 0.
    pub fn to_int(&self) -> (r: i64)
        ensures
            r == match self {
                OneToThree::One => 0i64,
                OneToThree::Two => 1i64,
                OneToThree::Three => 2i64,
            },
    {
        match self {
            OneToThree::One => 0,
            OneToThree::Two => 1,
            OneToThree::Three => 2,
        }
    }
}

/// Whom a skill's effect reaches.
#[derive(Debug, Clone, Copy, Hash, PartialEq, Eq, Structural)]
pub enum Target {
    Solo,
    All,
    /// Written `Self` in the game data.
    Selff,
    Team,
}

/// The slots (0 is the enemy) that a skill effect aimed at `target` lands on, in order.
pub open spec fn recipients_of(target: Target, skill: OneToThree, char_count: nat) -> Seq<i64> {
    match target {
        Target::All | Target::Solo => seq![0i64],
        Target::Selff => seq![
            match skill {
                OneToThree::One => 1i64,
                OneToThree::Two => 2i64,
                OneToThree::Three => 3i64,
            },
        ],
        Target::Team => Seq::new(char_count, |k: int| (k + 1) as i64),
    }
}

impl Target {
    /// The slots that an effect of skill `skill` aimed at `self` is applied to, when the team
    /// has `char_count` characters: the enemy for `All` and `Solo`, the slot one past the skill's
    /// position for `Selff`, and each character in turn for `Team`.
    pub fn recipients(&self, skill: &OneToThree, char_count: usize) -> (r: Vec<i64>)
        ensures
            r@ == recipients_of(*self, *skill, char_count as nat),
            *self is Selff ==> r@ == seq![
                (1 + match *skill {
                    OneToThree::One => 0int,
                    OneToThree::Two => 1int,
                    OneToThree::Three => 2int,
                }) as i64,
            ],
            (*self is Solo || *self is All) ==> r@ == seq![0i64],
            *self is Team ==> r@.len() == char_count,
            *self is Team && char_count <= i64::MAX ==> forall|i: int|
                0 <= i < char_count ==> #[trigger] r@[i] == i + 1,
    {
        match self {
            Target::All | Target::Solo => vec![0],
            Target::Selff => vec![skill.to_int() + 1],
            Target::Team => {
                let mut slots: Vec<i64> = Vec::new();
                let mut i: usize = 0;
                while i < char_count
                    invariant
                        i <= char_count,
                        slots@ =~= Seq::new(i as nat, |k: int| (k + 1) as i64),
                    decreases char_count - i,
                {
                    let slot = i + 1;
                    slots.push(slot as i64);
                    i = slot;
                }
                slots
            },
        }
    }
}

} // verus!
