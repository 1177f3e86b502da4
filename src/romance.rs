use vstd::prelude::*;

use crate::news::NewsEvent;
use crate::player::Player;
use crate::text::{names_match, same_name};

verus! {

/// Name of the tavern barmaid.
pub const BARMAID: &'static str = "Violet";

/// Romance points at which the barmaid accepts a proposal.
pub const PROPOSAL_ROMANCE: i32 = 5;

/// Number of distinct flirting responses; the last is the acceptance.
pub const RESPONSES: i32 = 5;

/// Price of a drink in gold.
pub const DRINK_PRICE: i32 = 5;

/// How a flirt went.
#[derive(Debug, Clone, Copy, PartialEq, Eq, Structural)]
pub enum Flirt {
    /// The player is already married to the barmaid; nothing changed.
    AlreadyMarried,
    /// The barmaid answered with the response of this stage (0 to 3).
    Charmed(i32),
    /// The barmaid accepted: the player is now married to her.
    Married,
}

/// The player is married to the barmaid (names compared up to ASCII case).
pub open spec fn married_to_barmaid(p: Player) -> bool {
    names_match(p.spouse@, BARMAID@)
}

/// Whether the player is married to the barmaid.
pub fn is_married_to_barmaid(player: &Player) -> (r: bool)
    ensures
        r == married_to_barmaid(*player),
{
    same_name(player.spouse.as_str(), BARMAID)
}

/// Flirts with the barmaid: one more romance point, and at 5 points she
/// marries the player. Nothing changes for a player already married to her.
pub fn flirt_with_violet(player: &mut Player) -> (r: (Flirt, Vec<NewsEvent>))
    requires
        old(player).romance < i32::MAX,
    ensures
        married_to_barmaid(*old(player)) ==> r.0 == Flirt::AlreadyMarried && r.1@.len() == 0
            && *final(player) == *old(player),
        !married_to_barmaid(*old(player)) ==> {
            &&& final(player).romance == old(player).romance + 1
            &&& if final(player).romance >= PROPOSAL_ROMANCE {
                &&& r.0 == Flirt::Married
                &&& final(player).spouse@ == BARMAID@
                &&& r.1@ == seq![NewsEvent::Married { player: old(player).name }]
                &&& *final(player) == (Player { romance: final(player).romance, spouse: final(player).spouse, ..*old(player) })
            } else {
                &&& r.0 == Flirt::Charmed((final(player).romance - 1) as i32)
                &&& r.1@.len() == 0
                &&& *final(player) == (Player { romance: final(player).romance, ..*old(player) })
            }
        },
        old(player).vitals_ok() ==> final(player).vitals_ok(),
        old(player).wf() ==> final(player).wf(),
{
    if is_married_to_barmaid(player) {
        return (Flirt::AlreadyMarried, Vec::new());
    }
    player.romance = player.romance + 1;
    if player.romance >= PROPOSAL_ROMANCE {
        player.spouse = BARMAID.to_owned();
        let news = vec![NewsEvent::Married { player: player.name.clone() }];
        (Flirt::Married, news)
    } else {
        (Flirt::Charmed(player.romance - 1), Vec::new())
    }
}

/// Why the tavern refused.
#[derive(Debug, Clone, Copy, PartialEq, Eq, Structural)]
pub enum TavernError {
    /// The player cannot pay for a drink.
    NotEnoughGold,
}

/// Hit points restored by a drink: a quarter of the maximum, at least 1.
pub open spec fn drink_heal(max_hp: int) -> int {
    if max_hp / 4 >= 1 { max_hp / 4 } else { 1 }
}

/// Hit points of the spouse's free refill: an eighth of the maximum, at least 1.
pub open spec fn refill_heal(max_hp: int) -> int {
    if max_hp / 8 >= 1 { max_hp / 8 } else { 1 }
}

/// `hp` raised by `heal`, capped at `max_hp`.
pub open spec fn healed(hp: int, heal: int, max_hp: int) -> int {
    if hp + heal >= max_hp { max_hp } else { hp + heal }
}

fn heal_by(hp: i32, heal: i32, max_hp: i32) -> (r: i32)
    requires
        0 <= hp <= max_hp,
        heal >= 1,
    ensures
        r == healed(hp as int, heal as int, max_hp as int),
{
    if hp >= max_hp - heal { max_hp } else { hp + heal }
}

/// Buys a drink for 5 gold: it restores a quarter of the maximum hit points
/// (at least 1, capped at the maximum), and a player married to the barmaid
/// gets a free refill worth an eighth (at least 1). Returns the hit points
/// restored. Refused, with nothing changed, below 5 gold.
pub fn buy_drink(player: &mut Player) -> (r: Result<i32, TavernError>)
    requires
        old(player).wf(),
        old(player).alive,
    ensures
        old(player).gold < DRINK_PRICE ==> r == Err::<i32, TavernError>(TavernError::NotEnoughGold)
            && *final(player) == *old(player),
        old(player).gold >= DRINK_PRICE ==> {
            let first = healed(old(player).current_hp as int, drink_heal(old(player).max_hp as int), old(player).max_hp as int);
            let hp = if married_to_barmaid(*old(player)) {
                healed(first, refill_heal(old(player).max_hp as int), old(player).max_hp as int)
            } else {
                first
            };
            &&& *final(player) == (Player { gold: (old(player).gold - DRINK_PRICE) as i32, current_hp: hp as i32, ..*old(player) })
            &&& r == Ok::<i32, TavernError>((hp - old(player).current_hp) as i32)
        },
        final(player).wf(),
{
    if player.gold < DRINK_PRICE {
        return Err(TavernError::NotEnoughGold);
    }
    let before = player.current_hp;
    player.gold = player.gold - DRINK_PRICE;
    let heal = if player.max_hp / 4 >= 1 { player.max_hp / 4 } else { 1 };
    player.current_hp = heal_by(player.current_hp, heal, player.max_hp);
    if is_married_to_barmaid(player) {
        let bonus = if player.max_hp / 8 >= 1 { player.max_hp / 8 } else { 1 };
        player.current_hp = heal_by(player.current_hp, bonus, player.max_hp);
    }
    Ok(player.current_hp - before)
}

} // verus!
