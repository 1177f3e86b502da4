use vstd::prelude::*;

use crate::player::{threshold, Player};

verus! {

/// Number of level-ups that experience `exp` buys from `level`: each one
/// consumes the threshold of the level it leaves.
pub open spec fn level_ups(level: int, exp: int) -> nat
    decreases exp,
{
    if level >= 1 && exp >= threshold(level) {
        1 + level_ups(level + 1, exp - threshold(level))
    } else {
        0
    }
}

/// Experience left after all the level-ups that `exp` buys from `level`.
pub open spec fn exp_left(level: int, exp: int) -> int
    decreases exp,
{
    if level >= 1 && exp >= threshold(level) {
        exp_left(level + 1, exp - threshold(level))
    } else {
        exp
    }
}

/// Each level-up consumes at least 100 experience, and what is left stays
/// below the threshold of the level reached.
pub proof fn lemma_level_ups_bounded(level: int, exp: int)
    requires
        level >= 1,
        exp >= 0,
    ensures
        level_ups(level, exp) <= exp / 100,
        0 <= exp_left(level, exp) < threshold(level + level_ups(level, exp)),
        exp_left(level, exp) <= exp,
    decreases exp,
{
    if exp >= threshold(level) {
        lemma_level_ups_bounded(level + 1, exp - threshold(level));
    }
}

/// More experience never buys fewer level-ups.
pub proof fn lemma_level_ups_monotone(level: int, e1: int, e2: int)
    requires
        e1 <= e2,
    ensures
        level_ups(level, e1) <= level_ups(level, e2),
    decreases e2,
{
    if level >= 1 && e1 >= threshold(level) {
        lemma_level_ups_monotone(level + 1, e1 - threshold(level), e2 - threshold(level));
    }
}

/// With experience `exp`, the values of `p` stay in i32 through the
/// level-ups that this experience buys.
pub open spec fn growth_fits(p: Player, exp: int) -> bool {
    let k = level_ups(p.level as int, exp);
    &&& exp <= i32::MAX
    &&& p.level + k <= i32::MAX
    &&& p.max_hp + 10 * k <= i32::MAX
    &&& p.attack + 2 * k <= i32::MAX
    &&& p.defense + k <= i32::MAX
}

/// Whether `growth_fits(p, exp)` holds.
pub fn check_growth(p: &Player, exp: i64) -> (r: bool)
    requires
        exp >= 0,
        p.level >= 1,
    ensures
        r == growth_fits(*p, exp as int),
{
    let max = i32::MAX as i64;
    if exp > max {
        return false;
    }
    let ghost k0 = level_ups(p.level as int, exp as int);
    proof {
        lemma_level_ups_bounded(p.level as int, exp as int);
    }
    let mut level = p.level as i64;
    let mut left = exp;
    let mut k: i64 = 0;
    while left >= level * 100
        invariant
            0 <= left <= exp <= max,
            max == i32::MAX,
            p.level >= 1,
            level == p.level + k,
            k <= k0,
            k + level_ups(level as int, left as int) == k0,
            k0 <= exp / 100,
            0 <= k,
        decreases left,
    {
        left = left - level * 100;
        level = level + 1;
        k = k + 1;
    }
    p.level as i64 + k <= max && p.max_hp as i64 + 10 * k <= max && p.attack as i64 + 2 * k <= max
        && p.defense as i64 + k <= max
}

/// The values of `p` stay in i32 for every level-up that its experience buys.
pub open spec fn leveling_fits(p: Player) -> bool {
    growth_fits(p, p.exp as int)
}

/// Room for more experience leaves room for less.
pub proof fn lemma_growth_fits_smaller(p: Player, e1: int, e2: int)
    requires
        growth_fits(p, e2),
        0 <= e1 <= e2,
    ensures
        growth_fits(p, e1),
{
    lemma_level_ups_monotone(p.level as int, e1, e2);
}

/// What the leveling policy makes of `p`: `k = level_ups(level, exp)`
/// level-ups, each adding one level, 10 maximum hit points, 2 attack and
/// 1 defense; experience reduced to `exp_left`; a full heal when `k > 0`.
pub open spec fn leveled(p: Player, q: Player) -> bool {
    let k = level_ups(p.level as int, p.exp as int);
    &&& q.level == p.level + k
    &&& q.exp == exp_left(p.level as int, p.exp as int)
    &&& q.max_hp == p.max_hp + 10 * k
    &&& q.attack == p.attack + 2 * k
    &&& q.defense == p.defense + k
    &&& q.current_hp == (if k > 0 { q.max_hp as int } else { p.current_hp as int })
    &&& q.id == p.id
    &&& q.name == p.name
    &&& q.password == p.password
    &&& q.gold == p.gold
    &&& q.forest_fights == p.forest_fights
    &&& q.alive == p.alive
    &&& q.romance == p.romance
    &&& q.spouse == p.spouse
    &&& q.last_login == p.last_login
}

/// The leveling policy restores the invariant: a living player whose
/// combat state is sound, with any non-negative experience, satisfies the
/// whole invariant after its level-ups.
pub proof fn lemma_leveling_restores_invariant(p: Player, q: Player)
    requires
        p.vitals_ok(),
        p.alive,
        p.exp >= 0,
        leveled(p, q),
    ensures
        q.wf(),
{
    lemma_level_ups_bounded(p.level as int, p.exp as int);
}

/// Applies every level-up that the player's experience pays for and returns
/// how many happened. A living player that satisfied the invariant apart
/// from its experience satisfies the whole invariant afterwards.
pub fn try_level_up(player: &mut Player) -> (ups: u32)
    requires
        old(player).level >= 1,
        old(player).exp >= 0,
        leveling_fits(*old(player)),
    ensures
        leveled(*old(player), *final(player)),
        ups == level_ups(old(player).level as int, old(player).exp as int),
        old(player).vitals_ok() && old(player).alive ==> final(player).wf(),
{
    let ghost p0 = *player;
    let ghost k0 = level_ups(p0.level as int, p0.exp as int);
    proof {
        lemma_level_ups_bounded(p0.level as int, p0.exp as int);
    }
    let mut ups: u32 = 0;
    while player.exp as i64 >= player.level as i64 * 100
        invariant
            player.level >= 1,
            player.exp >= 0,
            ups + level_ups(player.level as int, player.exp as int) == k0,
            exp_left(player.level as int, player.exp as int) == exp_left(p0.level as int, p0.exp as int),
            player.level == p0.level + ups,
            player.max_hp == p0.max_hp + 10 * ups,
            player.attack == p0.attack + 2 * ups,
            player.defense == p0.defense + ups,
            player.current_hp == (if ups > 0 { player.max_hp as int } else { p0.current_hp as int }),
            player.id == p0.id,
            player.name == p0.name,
            player.password == p0.password,
            player.gold == p0.gold,
            player.forest_fights == p0.forest_fights,
            player.alive == p0.alive,
            player.romance == p0.romance,
            player.spouse == p0.spouse,
            player.last_login == p0.last_login,
            leveling_fits(p0),
            k0 == level_ups(p0.level as int, p0.exp as int),
        decreases player.exp,
    {
        assert(level_ups(player.level as int, player.exp as int) >= 1);
        assert(ups < k0);
        player.exp -= player.level * 100;
        player.level += 1;
        player.max_hp += 10;
        player.current_hp = player.max_hp;
        player.attack += 2;
        player.defense += 1;
        ups += 1;
    }
    proof {
        lemma_level_ups_bounded(p0.level as int, p0.exp as int);
    }
    ups
}

} // verus!
