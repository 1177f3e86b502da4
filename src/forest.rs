use vstd::prelude::*;

use rand::rngs::StdRng;

use crate::combat::{lemma_run_hp_never_grows, lemma_run_stops_when_over, resolve_fight, run, start_fight, valid_rolls, Fight};
use crate::leveling::{check_growth, growth_fits, lemma_leveling_restores_invariant, leveled, lemma_growth_fits_smaller, level_ups, try_level_up};
use crate::monster::{generate_monster, scaled_monster, valid_draws, Monster, MonsterKind, MAX_ENCOUNTER_LEVEL, MONSTER_KINDS};
use crate::news::{level_up_events, level_up_news, NewsEvent};
use crate::player::Player;

verus! {

/// A monster whose defeat makes the news has attack above this.
pub const NOTABLE_ATTACK: i32 = 10;

/// Why a forest encounter could not start.
#[derive(Debug, Clone, Copy, PartialEq, Eq, Structural)]
pub enum ForestError {
    /// No forest fights are left today.
    NoFightsLeft,
    /// The player is dead until the next daily reset.
    PlayerDead,
}

/// A concluded forest encounter.
#[derive(Debug, Clone, PartialEq, Eq)]
pub struct Encounter {
    /// The monster that was met.
    pub monster: Monster,
    /// The fight as it ended, the player being the challenger.
    pub fight: Fight,
    /// How many levels the player gained.
    pub level_ups: u32,
    /// The news entries the encounter produced, in order.
    pub news: Vec<NewsEvent>,
}

/// The player after fighting: hit points from the fight's end, dead when
/// none are left, one forest fight spent.
pub open spec fn after_fight(p: Player, f: Fight) -> Player {
    Player {
        current_hp: f.challenger_hp,
        alive: f.challenger_hp > 0,
        forest_fights: (p.forest_fights - 1) as i32,
        ..p
    }
}

/// The player after a won fight, before leveling: rewards added.
pub open spec fn rewarded(p: Player, m: Monster, f: Fight) -> Player {
    Player {
        exp: (p.exp + m.exp_reward) as i32,
        gold: (p.gold + m.gold_reward) as i32,
        ..after_fight(p, f)
    }
}

/// `q` is the settlement of `p` fighting `m` to the end `f`: on victory the
/// rewards are added and the leveling policy applied; on defeat the player
/// is dead at 0 hit points; one forest fight is spent either way. The
/// rewards are added exactly.
pub open spec fn settled_encounter(p: Player, m: Monster, f: Fight, q: Player) -> bool {
    if f.challenger_won() {
        &&& rewarded(p, m, f).exp == p.exp + m.exp_reward
        &&& rewarded(p, m, f).gold == p.gold + m.gold_reward
        &&& leveled(rewarded(p, m, f), q)
    } else {
        q == after_fight(p, f)
    }
}

/// The news of that settlement: on victory one entry per level-up and, for a
/// monster with attack above 10, a kill entry; on defeat one death entry.
pub open spec fn encounter_news(p: Player, m: Monster, f: Fight) -> Seq<NewsEvent> {
    if f.challenger_won() {
        let r = rewarded(p, m, f);
        level_up_news(p.name, p.level as int, level_ups(r.level as int, r.exp as int))
            + if m.attack > NOTABLE_ATTACK {
            seq![NewsEvent::MonsterSlain { player: p.name, monster: m.kind }]
        } else {
            Seq::empty()
        }
    } else {
        seq![NewsEvent::SlainByMonster { player: p.name, monster: m.kind }]
    }
}

/// Bounds that keep the settlement of an encounter at the player's level in
/// i32: room for 39 gold and 41 experience per level.
pub open spec fn encounter_fits(p: Player) -> bool {
    &&& 1 <= p.level <= MAX_ENCOUNTER_LEVEL
    &&& p.gold + 39 * p.level <= i32::MAX
    &&& growth_fits(p, p.exp + 41 * p.level)
}

/// Whether `encounter_fits(p)` holds for a player satisfying the invariant.
pub fn check_encounter_fits(p: &Player) -> (r: bool)
    requires
        p.wf(),
    ensures
        r == encounter_fits(*p),
{
    if p.level > MAX_ENCOUNTER_LEVEL {
        return false;
    }
    p.gold as i64 + 39 * p.level as i64 <= i32::MAX as i64 && check_growth(p, p.exp as i64 + 41 * p.level as i64)
}

/// The fight that opens an encounter of `p` against `m`.
pub open spec fn opening(p: Player, m: Monster) -> Fight {
    Fight {
        challenger_hp: p.current_hp,
        challenger_attack: p.attack,
        opponent_hp: m.hp,
        opponent_attack: m.attack,
        challenger_to_strike: true,
    }
}

/// Applies the outcome `fight` of an encounter with `monster` to `player`
/// and returns the news it produces.
pub fn settle_encounter(player: &mut Player, monster: &Monster, fight: &Fight) -> (r: (u32, Vec<NewsEvent>))
    requires
        old(player).wf(),
        old(player).alive,
        old(player).forest_fights >= 1,
        fight.wf(),
        fight.is_over(),
        fight.challenger_hp <= old(player).current_hp,
        1 <= monster.exp_reward,
        1 <= monster.gold_reward,
        old(player).gold + monster.gold_reward <= i32::MAX,
        growth_fits(*old(player), old(player).exp + monster.exp_reward),
    ensures
        settled_encounter(*old(player), *monster, *fight, *final(player)),
        r.1@ == encounter_news(*old(player), *monster, *fight),
        r.0 == (if fight.challenger_won() {
            level_ups(rewarded(*old(player), *monster, *fight).level as int, rewarded(*old(player), *monster, *fight).exp as int)
        } else {
            0
        }),
        final(player).wf(),
{
    let ghost p0 = *player;
    player.current_hp = fight.challenger_hp;
    player.alive = fight.challenger_hp > 0;
    player.forest_fights = player.forest_fights - 1;
    if fight.challenger_hp > 0 {
        let from_level = player.level;
        player.exp = player.exp + monster.exp_reward;
        player.gold = player.gold + monster.gold_reward;
        assert(*player == rewarded(p0, *monster, *fight));
        let ups = try_level_up(player);
        proof {
            crate::leveling::lemma_level_ups_bounded(p0.level as int, p0.exp + monster.exp_reward);
        }
        let mut news = level_up_events(&player.name, from_level, ups);
        if monster.attack > NOTABLE_ATTACK {
            news.push(NewsEvent::MonsterSlain { player: player.name.clone(), monster: monster.kind });
        }
        (ups, news)
    } else {
        let news = vec![NewsEvent::SlainByMonster { player: player.name.clone(), monster: monster.kind }];
        (0, news)
    }
}

/// One forest encounter: a monster is drawn for the player's level, the two
/// fight round by round with the player striking first, and the outcome is
/// settled. Refused, with nothing changed, when no forest fights are left or
/// the player is dead.
pub fn explore_forest(player: &mut Player, rng: &mut StdRng) -> (r: Result<Encounter, ForestError>)
    requires
        old(player).wf(),
        encounter_fits(*old(player)),
    ensures
        old(player).forest_fights <= 0 ==> r == Err::<Encounter, ForestError>(ForestError::NoFightsLeft),
        old(player).forest_fights > 0 && !old(player).alive ==> r == Err::<Encounter, ForestError>(ForestError::PlayerDead),
        r is Err ==> *final(player) == *old(player),
        old(player).forest_fights > 0 && old(player).alive ==> r is Ok,
        r matches Ok(e) ==> {
            &&& e.fight.is_over()
            &&& exists|rolls: Seq<int>| valid_rolls(opening(*old(player), e.monster), rolls)
                && #[trigger] run(opening(*old(player), e.monster), rolls) == e.fight
            &&& exists|i: int, hp_bonus: int, attack_bonus: int, gold_roll: int|
                0 <= i < MONSTER_KINDS && valid_draws(old(player).level as int, hp_bonus, attack_bonus)
                    && 1 <= gold_roll <= 3 * e.monster.attack && #[trigger] scaled_monster(
                    MonsterKind::at(i),
                    old(player).level as int,
                    hp_bonus,
                    attack_bonus,
                    gold_roll,
                ) == e.monster
            &&& settled_encounter(*old(player), e.monster, e.fight, *final(player))
            &&& e.news@ == encounter_news(*old(player), e.monster, e.fight)
        },
        final(player).wf(),
{
    if player.forest_fights <= 0 {
        return Err(ForestError::NoFightsLeft);
    }
    if !player.alive {
        return Err(ForestError::PlayerDead);
    }
    let monster = generate_monster(player.level, rng);
    let start = start_fight(player.current_hp, player.attack, monster.hp, monster.attack);
    let fight = resolve_fight(start, rng);
    proof {
        let rolls = choose|rolls: Seq<int>| valid_rolls(start, rolls) && #[trigger] run(start, rolls) == fight;
        assert forall|i: int| 0 <= i < rolls.len() implies #[trigger] rolls[i] >= 1 by {
            assert(valid_rolls(start, rolls));
        }
        lemma_run_hp_never_grows(start, rolls);
        assert(start == opening(*player, monster));
        lemma_growth_fits_smaller(*player, player.exp + monster.exp_reward, player.exp + 41 * player.level);
    }
    let (level_ups, news) = settle_encounter(player, &monster, &fight);
    Ok(Encounter { monster, fight, level_ups, news })
}

/// A forest encounter keeps the player invariant: a player who satisfied it
/// and could fight satisfies it after any settlement of the encounter,
/// through the fight, the rewards and every level-up.
pub proof fn lemma_encounter_keeps_invariant(p: Player, m: Monster, f: Fight, q: Player)
    requires
        p.wf(),
        p.alive,
        p.forest_fights >= 1,
        m.exp_reward >= 0,
        m.gold_reward >= 0,
        f.wf(),
        f.is_over(),
        f.challenger_hp <= p.current_hp,
        settled_encounter(p, m, f, q),
    ensures
        q.wf(),
{
    if f.challenger_won() {
        lemma_leveling_restores_invariant(rewarded(p, m, f), q);
    }
}

/// Death in the forest: when the monster survives the player's first strike
/// and its answer deals more than the player's 5 hit points, the encounter
/// leaves the player dead at 0 hit points with one forest fight spent, and
/// its only news is the one death entry; whatever strikes follow change
/// nothing.
pub proof fn lemma_forest_death(p: Player, m: Monster, rolls: Seq<int>, q: Player)
    requires
        p.wf(),
        p.alive,
        p.current_hp == 5,
        p.forest_fights >= 1,
        rolls.len() >= 2,
        1 <= rolls[0] < m.hp,
        rolls[1] > 5,
        settled_encounter(p, m, run(opening(p, m), rolls), q),
    ensures
        !q.alive,
        q.current_hp == 0,
        q.forest_fights == p.forest_fights - 1,
        encounter_news(p, m, run(opening(p, m), rolls)) == seq![
            NewsEvent::SlainByMonster { player: p.name, monster: m.kind },
        ],
{
    let f0 = opening(p, m);
    assert(rolls.take(1).drop_last() =~= rolls.take(0));
    assert(rolls.take(0) =~= Seq::<int>::empty());
    assert(rolls.take(2).drop_last() =~= rolls.take(1));
    assert(rolls.take(1).last() == rolls[0]);
    assert(rolls.take(2).last() == rolls[1]);
    assert(run(f0, rolls.take(0)) == f0);
    let f1 = run(f0, rolls.take(1));
    assert(f1 == run(f0, rolls.take(0)).struck(rolls[0]));
    assert(f1.opponent_hp == m.hp - rolls[0] && f1.challenger_hp == 5 && !f1.challenger_to_strike);
    let f2 = run(f0, rolls.take(2));
    assert(f2 == run(f0, rolls.take(1)).struck(rolls[1]));
    assert(f2.challenger_hp == 0 && f2.opponent_hp > 0);
    lemma_run_stops_when_over(f0, rolls, 2);
}

} // verus!
