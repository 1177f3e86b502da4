use vstd::prelude::*;

use rand::rngs::StdRng;

use crate::dice::roll;

verus! {

/// Highest player level for which every monster stat fits in i32.
pub const MAX_ENCOUNTER_LEVEL: i32 = 50_000_000;

/// The monster archetypes of the forest.
#[derive(Debug, Clone, Copy, PartialEq, Eq, Structural)]
pub enum MonsterKind {
    WildBoar,
    Goblin,
    Ogre,
    GiantSpider,
    BlackKnight,
    ForestDragon,
}

/// Number of monster archetypes.
pub const MONSTER_KINDS: usize = 6;

impl MonsterKind {
    pub open spec fn base_hp(self) -> int {
        match self {
            MonsterKind::WildBoar => 15,
            MonsterKind::Goblin => 20,
            MonsterKind::Ogre => 30,
            MonsterKind::GiantSpider => 25,
            MonsterKind::BlackKnight => 35,
            MonsterKind::ForestDragon => 50,
        }
    }

    pub open spec fn base_attack(self) -> int {
        match self {
            MonsterKind::WildBoar => 4,
            MonsterKind::Goblin => 5,
            MonsterKind::Ogre => 6,
            MonsterKind::GiantSpider => 5,
            MonsterKind::BlackKnight => 8,
            MonsterKind::ForestDragon => 12,
        }
    }

    /// The archetype at position `i` of the table.
    pub open spec fn at(i: int) -> MonsterKind {
        if i == 0 {
            MonsterKind::WildBoar
        } else if i == 1 {
            MonsterKind::Goblin
        } else if i == 2 {
            MonsterKind::Ogre
        } else if i == 3 {
            MonsterKind::GiantSpider
        } else if i == 4 {
            MonsterKind::BlackKnight
        } else {
            MonsterKind::ForestDragon
        }
    }

    /// The archetype at position `i` of the table.
    pub fn from_index(i: usize) -> (k: MonsterKind)
        requires
            i < MONSTER_KINDS,
        ensures
            k == MonsterKind::at(i as int),
    {
        if i == 0 {
            MonsterKind::WildBoar
        } else if i == 1 {
            MonsterKind::Goblin
        } else if i == 2 {
            MonsterKind::Ogre
        } else if i == 3 {
            MonsterKind::GiantSpider
        } else if i == 4 {
            MonsterKind::BlackKnight
        } else {
            MonsterKind::ForestDragon
        }
    }

    pub fn base_stats(self) -> (r: (i32, i32))
        ensures
            r.0 == self.base_hp(),
            r.1 == self.base_attack(),
    {
        match self {
            MonsterKind::WildBoar => (15, 4),
            MonsterKind::Goblin => (20, 5),
            MonsterKind::Ogre => (30, 6),
            MonsterKind::GiantSpider => (25, 5),
            MonsterKind::BlackKnight => (35, 8),
            MonsterKind::ForestDragon => (50, 12),
        }
    }

    /// Display name of the archetype.
    pub fn name(self) -> &'static str {
        match self {
            MonsterKind::WildBoar => "Wild Boar",
            MonsterKind::Goblin => "Goblin",
            MonsterKind::Ogre => "Ogre",
            MonsterKind::GiantSpider => "Giant Spider",
            MonsterKind::BlackKnight => "Black Knight",
            MonsterKind::ForestDragon => "Forest Dragon",
        }
    }
}

/// A monster met in the forest; it lives for one encounter.
#[derive(Debug, Clone, Copy, PartialEq, Eq, Structural)]
pub struct Monster {
    pub kind: MonsterKind,
    pub hp: i32,
    pub attack: i32,
    pub exp_reward: i32,
    pub gold_reward: i32,
}

/// Stat multiplier at `level`: grows by one every two levels.
pub open spec fn level_factor(level: int) -> int {
    1 + (level - 1) / 2
}

pub open spec fn max_int(a: int, b: int) -> int {
    if a >= b { a } else { b }
}

/// The monster of archetype `kind` met at `level`, given the bonus hit points,
/// the bonus attack and the gold roll that were drawn.
pub open spec fn scaled_monster(kind: MonsterKind, level: int, hp_bonus: int, attack_bonus: int, gold_roll: int) -> Monster {
    let hp = kind.base_hp() * level_factor(level) + hp_bonus;
    let attack = kind.base_attack() * level_factor(level) + attack_bonus;
    Monster {
        kind,
        hp: hp as i32,
        attack: attack as i32,
        exp_reward: max_int(1, hp / 2 + attack) as i32,
        gold_reward: max_int(1, gold_roll) as i32,
    }
}

/// The draws that the encounter generator may make at `level`.
pub open spec fn valid_draws(level: int, hp_bonus: int, attack_bonus: int) -> bool {
    &&& 0 <= hp_bonus <= 5 * level
    &&& 0 <= attack_bonus <= level
}

/// Monster statistics from the draws: hit points and attack scale with the
/// level factor plus the bonuses; experience is `max(1, hp / 2 + attack)`
/// and gold `max(1, gold_roll)`.
pub fn scale_monster(kind: MonsterKind, level: i32, hp_bonus: i32, attack_bonus: i32, gold_roll: i32) -> (m: Monster)
    requires
        1 <= level <= MAX_ENCOUNTER_LEVEL,
        valid_draws(level as int, hp_bonus as int, attack_bonus as int),
    ensures
        m == scaled_monster(kind, level as int, hp_bonus as int, attack_bonus as int, gold_roll as int),
        m.hp >= 1,
        m.attack >= 1,
        m.attack <= 13 * level,
        1 <= m.exp_reward <= 41 * level,
        1 <= m.gold_reward,
        gold_roll <= 3 * m.attack ==> m.gold_reward <= 39 * level,
{
    let (base_hp, base_attack) = kind.base_stats();
    let factor = 1 + (level - 1) / 2;
    assert(factor <= level) by {
        assert(level_factor(level as int) <= level);
    }
    assert(0 <= base_hp * factor <= 50 * factor) by (nonlinear_arith)
        requires 0 <= base_hp <= 50, factor >= 1;
    assert(0 < base_attack * factor <= 12 * factor) by (nonlinear_arith)
        requires 1 <= base_attack <= 12, factor >= 1;
    let hp = base_hp * factor + hp_bonus;
    let attack = base_attack * factor + attack_bonus;
    let exp = hp / 2 + attack;
    let exp_reward = if exp >= 1 { exp } else { 1 };
    let gold_reward = if gold_roll >= 1 { gold_roll } else { 1 };
    Monster { kind, hp, attack, exp_reward, gold_reward }
}

/// Draws a monster for a player of `level` from `rng`: a uniformly chosen
/// archetype, bonus hit points in `0..=5*level`, bonus attack in `0..=level`,
/// and a gold roll in `1..=3*attack`.
pub fn generate_monster(level: i32, rng: &mut StdRng) -> (m: Monster)
    requires
        1 <= level <= MAX_ENCOUNTER_LEVEL,
    ensures
        exists|i: int, hp_bonus: int, attack_bonus: int, gold_roll: int|
            0 <= i < MONSTER_KINDS && valid_draws(level as int, hp_bonus, attack_bonus)
                && 1 <= gold_roll <= 3 * m.attack && #[trigger] scaled_monster(
                MonsterKind::at(i),
                level as int,
                hp_bonus,
                attack_bonus,
                gold_roll,
            ) == m,
        m.hp >= 1,
        m.attack >= 1,
        m.attack <= 13 * level,
        1 <= m.exp_reward <= 41 * level,
        1 <= m.gold_reward <= 39 * level,
{
    let i = roll(rng, 0, (MONSTER_KINDS - 1) as i32);
    let kind = MonsterKind::from_index(i as usize);
    let hp_bonus = roll(rng, 0, 5 * level);
    let attack_bonus = roll(rng, 0, level);
    let drawn = scale_monster(kind, level, hp_bonus, attack_bonus, 1);
    let gold_roll = roll(rng, 1, drawn.attack * 3);
    let m = scale_monster(kind, level, hp_bonus, attack_bonus, gold_roll);
    assert(scaled_monster(MonsterKind::at(i as int), level as int, hp_bonus as int, attack_bonus as int, gold_roll as int) == m);
    m
}

} // verus!
