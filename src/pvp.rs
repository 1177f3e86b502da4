use vstd::prelude::*;

use rand::rngs::StdRng;

use crate::combat::{lemma_run_hp_never_grows, resolve_fight, run, start_fight, valid_rolls, Fight};
use crate::leveling::{check_growth, growth_fits, lemma_leveling_restores_invariant, leveled, lemma_level_ups_bounded, level_ups, try_level_up};
use crate::news::{level_up_events, level_up_news, NewsEvent};
use crate::player::{Player, PlayerInfo};

verus! {

/// Experience a duel victor gains per level of the defeated player.
pub const EXP_PER_DEFEATED_LEVEL: i32 = 50;

/// What the challenger picked from the list of possible opponents.
#[derive(Debug, Clone, Copy, PartialEq, Eq, Structural)]
pub enum DuelChoice {
    /// Nobody else is alive: the duel ends at once, nothing changes.
    NoOpponents,
    /// The challenger chose 0 and went back to town.
    Cancelled,
    /// The input was no number or outside the list.
    Invalid,
    /// The id of the chosen opponent.
    Opponent(i32),
}

/// Interprets the challenger's pick `choice` (a 1-based position in
/// `opponents`, 0 to cancel, `None` when it was no number).
pub fn choose_opponent(opponents: &Vec<PlayerInfo>, choice: Option<usize>) -> (r: DuelChoice)
    ensures
        opponents.len() == 0 ==> r == DuelChoice::NoOpponents,
        opponents.len() > 0 ==> r == match choice {
            None => DuelChoice::Invalid,
            Some(n) => if n == 0 {
                DuelChoice::Cancelled
            } else if n <= opponents.len() {
                DuelChoice::Opponent(opponents[n - 1].id)
            } else {
                DuelChoice::Invalid
            },
        },
{
    if opponents.len() == 0 {
        return DuelChoice::NoOpponents;
    }
    match choice {
        None => DuelChoice::Invalid,
        Some(n) => {
            if n == 0 {
                DuelChoice::Cancelled
            } else if n <= opponents.len() {
                DuelChoice::Opponent(opponents[n - 1].id)
            } else {
                DuelChoice::Invalid
            }
        },
    }
}

/// Why a duel could not start.
#[derive(Debug, Clone, Copy, PartialEq, Eq, Structural)]
pub enum DuelError {
    /// The challenger is dead.
    ChallengerDead,
    /// The chosen opponent is dead.
    TargetDead,
}

/// A concluded duel.
#[derive(Debug, Clone, PartialEq, Eq)]
pub struct Duel {
    /// The fight as it ended; the challenger struck first in every round.
    pub fight: Fight,
    /// Levels the challenger gained.
    pub level_ups: u32,
    /// The news entries of the duel, in order.
    pub news: Vec<NewsEvent>,
}

/// Gold taken from a defeated player holding `gold`: half of it, rounded down.
pub open spec fn loot(gold: int) -> int {
    gold / 2
}

/// The challenger after winning, before leveling: hit points from the
/// fight, half the loser's gold, and 50 experience per level of the loser.
pub open spec fn victor(p: Player, t: Player, f: Fight) -> Player {
    Player {
        current_hp: f.challenger_hp,
        gold: (p.gold + loot(t.gold as int)) as i32,
        exp: (p.exp + EXP_PER_DEFEATED_LEVEL * t.level) as i32,
        ..p
    }
}

/// A player defeated in a duel: dead at 0 hit points, half the gold gone.
pub open spec fn defeated(p: Player) -> Player {
    Player { current_hp: 0, alive: false, gold: (p.gold - loot(p.gold as int)) as i32, ..p }
}

/// `(q, u)` is the settlement of challenger `p` against `t` after the fight
/// ended in `f`. Either way the loser gives half its gold (rounded down) to
/// the winner; only a winning challenger gains experience and levels. Gold
/// and experience are added exactly.
pub open spec fn settled_duel(p: Player, t: Player, f: Fight, q: Player, u: Player) -> bool {
    if f.challenger_won() {
        &&& victor(p, t, f).gold == p.gold + loot(t.gold as int)
        &&& victor(p, t, f).exp == p.exp + EXP_PER_DEFEATED_LEVEL * t.level
        &&& leveled(victor(p, t, f), q)
        &&& u == defeated(t)
    } else {
        &&& q == defeated(p)
        &&& u.gold == t.gold + loot(p.gold as int)
        &&& u == Player {
            current_hp: f.opponent_hp,
            gold: (t.gold + loot(p.gold as int)) as i32,
            ..t
        }
    }
}

/// The news of that settlement: the challenger's level-ups and the victory,
/// or the challenger's death.
pub open spec fn duel_news(p: Player, t: Player, f: Fight) -> Seq<NewsEvent> {
    if f.challenger_won() {
        let v = victor(p, t, f);
        level_up_news(p.name, p.level as int, level_ups(v.level as int, v.exp as int))
            + seq![NewsEvent::DuelWon { winner: p.name, loser: t.name }]
    } else {
        seq![NewsEvent::DuelLost { loser: p.name, winner: t.name }]
    }
}

/// Bounds that keep every settlement of a duel between `p` and `t` in i32.
pub open spec fn duel_fits(p: Player, t: Player) -> bool {
    &&& p.gold + loot(t.gold as int) <= i32::MAX
    &&& t.gold + loot(p.gold as int) <= i32::MAX
    &&& growth_fits(p, p.exp + EXP_PER_DEFEATED_LEVEL * t.level)
}

/// Whether `duel_fits(p, t)` holds for two players satisfying the invariant.
pub fn check_duel_fits(p: &Player, t: &Player) -> (r: bool)
    requires
        p.wf(),
        t.wf(),
    ensures
        r == duel_fits(*p, *t),
{
    let max = i32::MAX as i64;
    p.gold as i64 + t.gold as i64 / 2 <= max && t.gold as i64 + p.gold as i64 / 2 <= max
        && check_growth(p, p.exp as i64 + 50 * t.level as i64)
}

/// Applies the end `fight` of a duel between `player` (the challenger) and
/// `target` to both, as one settlement, and returns the news it produces.
pub fn settle_duel(player: &mut Player, target: &mut Player, fight: &Fight) -> (r: (u32, Vec<NewsEvent>))
    requires
        old(player).wf(),
        old(target).wf(),
        old(player).alive,
        old(target).alive,
        fight.wf(),
        fight.is_over(),
        fight.challenger_hp <= old(player).current_hp,
        fight.opponent_hp <= old(target).current_hp,
        duel_fits(*old(player), *old(target)),
    ensures
        settled_duel(*old(player), *old(target), *fight, *final(player), *final(target)),
        r.1@ == duel_news(*old(player), *old(target), *fight),
        final(player).gold + final(target).gold == old(player).gold + old(target).gold,
        final(player).wf(),
        final(target).wf(),
{
    let ghost p0 = *player;
    let ghost t0 = *target;
    if fight.challenger_hp > 0 {
        let stolen = target.gold / 2;
        target.current_hp = 0;
        target.alive = false;
        target.gold = target.gold - stolen;
        let from_level = player.level;
        player.current_hp = fight.challenger_hp;
        player.gold = player.gold + stolen;
        player.exp = player.exp + EXP_PER_DEFEATED_LEVEL * target.level;
        assert(*player == victor(p0, t0, *fight));
        proof {
            lemma_level_ups_bounded(p0.level as int, player.exp as int);
        }
        let ups = try_level_up(player);
        let mut news = level_up_events(&player.name, from_level, ups);
        news.push(NewsEvent::DuelWon { winner: player.name.clone(), loser: target.name.clone() });
        (ups, news)
    } else {
        let stolen = player.gold / 2;
        player.current_hp = 0;
        player.alive = false;
        player.gold = player.gold - stolen;
        target.current_hp = fight.opponent_hp;
        target.gold = target.gold + stolen;
        let news = vec![NewsEvent::DuelLost { loser: player.name.clone(), winner: target.name.clone() }];
        (0, news)
    }
}

/// A duel between `player`, who strikes first in every round, and `target`,
/// fought to the end with damage drawn from `rng` and settled on both.
/// Refused, with nothing changed, when either side is dead.
pub fn challenge_player(player: &mut Player, target: &mut Player, rng: &mut StdRng) -> (r: Result<Duel, DuelError>)
    requires
        old(player).wf(),
        old(target).wf(),
        duel_fits(*old(player), *old(target)),
    ensures
        !old(player).alive ==> r == Err::<Duel, DuelError>(DuelError::ChallengerDead),
        old(player).alive && !old(target).alive ==> r == Err::<Duel, DuelError>(DuelError::TargetDead),
        r is Err ==> *final(player) == *old(player) && *final(target) == *old(target),
        old(player).alive && old(target).alive ==> r is Ok,
        r matches Ok(d) ==> {
            &&& d.fight.is_over()
            &&& exists|rolls: Seq<int>| valid_rolls(duel_opening(*old(player), *old(target)), rolls)
                && #[trigger] run(duel_opening(*old(player), *old(target)), rolls) == d.fight
            &&& settled_duel(*old(player), *old(target), d.fight, *final(player), *final(target))
            &&& d.news@ == duel_news(*old(player), *old(target), d.fight)
        },
        final(player).gold + final(target).gold == old(player).gold + old(target).gold,
        final(player).wf(),
        final(target).wf(),
{
    if !player.alive {
        return Err(DuelError::ChallengerDead);
    }
    if !target.alive {
        return Err(DuelError::TargetDead);
    }
    let start = start_fight(player.current_hp, player.attack, target.current_hp, target.attack);
    let fight = resolve_fight(start, rng);
    proof {
        let rolls = choose|rolls: Seq<int>| valid_rolls(start, rolls) && #[trigger] run(start, rolls) == fight;
        assert forall|i: int| 0 <= i < rolls.len() implies #[trigger] rolls[i] >= 1 by {
            assert(valid_rolls(start, rolls));
        }
        lemma_run_hp_never_grows(start, rolls);
        assert(start == duel_opening(*player, *target));
    }
    let (level_ups, news) = settle_duel(player, target, &fight);
    Ok(Duel { fight, level_ups, news })
}

/// The fight that opens a duel: the challenger `p` against `t`.
pub open spec fn duel_opening(p: Player, t: Player) -> Fight {
    Fight {
        challenger_hp: p.current_hp,
        challenger_attack: p.attack,
        opponent_hp: t.current_hp,
        opponent_attack: t.attack,
        challenger_to_strike: true,
    }
}

/// Gold is conserved by a duel: whatever the fight's end, the two players
/// hold together what they held before, and exactly half the loser's gold
/// (rounded down) changed hands.
pub proof fn lemma_duel_conserves_gold(p: Player, t: Player, f: Fight, q: Player, u: Player)
    requires
        settled_duel(p, t, f, q, u),
    ensures
        q.gold + u.gold == p.gold + t.gold,
        f.challenger_won() ==> q.gold == p.gold + t.gold / 2 && u.gold == t.gold - t.gold / 2,
        !f.challenger_won() ==> u.gold == t.gold + p.gold / 2 && q.gold == p.gold - p.gold / 2,
{
}

/// A duel keeps the player invariant on both sides: two living players who
/// satisfied it satisfy it after any settlement of their duel.
pub proof fn lemma_duel_keeps_invariant(p: Player, t: Player, f: Fight, q: Player, u: Player)
    requires
        p.wf(),
        t.wf(),
        p.alive,
        t.alive,
        f.wf(),
        f.is_over(),
        f.challenger_hp <= p.current_hp,
        f.opponent_hp <= t.current_hp,
        settled_duel(p, t, f, q, u),
    ensures
        q.wf(),
        u.wf(),
{
    if f.challenger_won() {
        lemma_leveling_restores_invariant(victor(p, t, f), q);
    }
}

} // verus!
