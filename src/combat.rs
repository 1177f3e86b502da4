use vstd::prelude::*;

use rand::rngs::StdRng;

use crate::dice::roll;

verus! {

/// A fight between a challenger, who strikes first in every round, and an
/// opponent, who strikes back while still standing.
#[derive(Debug, Clone, Copy, PartialEq, Eq, Structural)]
pub struct Fight {
    pub challenger_hp: i32,
    pub challenger_attack: i32,
    pub opponent_hp: i32,
    pub opponent_attack: i32,
    /// Whether the next strike is the challenger's.
    pub challenger_to_strike: bool,
}

impl Fight {
    pub open spec fn wf(self) -> bool {
        &&& self.challenger_hp >= 0
        &&& self.opponent_hp >= 0
        &&& (self.challenger_hp > 0 || self.opponent_hp > 0)
        &&& self.challenger_attack >= 1
        &&& self.opponent_attack >= 1
    }

    /// The fight has ended: one side has no hit points left.
    pub open spec fn is_over(self) -> bool {
        self.challenger_hp == 0 || self.opponent_hp == 0
    }

    /// The challenger won: the opponent fell while the challenger stands.
    pub open spec fn challenger_won(self) -> bool {
        self.opponent_hp == 0 && self.challenger_hp > 0
    }

    /// The opponent won.
    pub open spec fn opponent_won(self) -> bool {
        self.challenger_hp == 0 && self.opponent_hp > 0
    }

    /// Attack of the side whose strike is next.
    pub open spec fn striker_attack(self) -> int {
        if self.challenger_to_strike {
            self.challenger_attack as int
        } else {
            self.opponent_attack as int
        }
    }

    /// One strike of `damage` by the side whose turn it is: the target's hit
    /// points drop by `damage`, clamped at 0, and the turn passes. A fight
    /// that is over does not change.
    pub open spec fn struck(self, damage: int) -> Fight {
        if self.is_over() {
            self
        } else if self.challenger_to_strike {
            Fight {
                opponent_hp: (if self.opponent_hp - damage <= 0 { 0 } else { self.opponent_hp - damage }) as i32,
                challenger_to_strike: false,
                ..self
            }
        } else {
            Fight {
                challenger_hp: (if self.challenger_hp - damage <= 0 { 0 } else { self.challenger_hp - damage }) as i32,
                challenger_to_strike: true,
                ..self
            }
        }
    }
}

/// The fight `f` after the strikes `rolls`, in order.
pub open spec fn run(f: Fight, rolls: Seq<int>) -> Fight
    decreases rolls.len(),
{
    if rolls.len() == 0 {
        f
    } else {
        run(f, rolls.drop_last()).struck(rolls.last())
    }
}

/// Each damage roll lies between 1 and the attack of its striker; the
/// strikers alternate, starting with the side whose turn it is in `f`.
pub open spec fn valid_rolls(f: Fight, rolls: Seq<int>) -> bool {
    forall|i: int|
        0 <= i < rolls.len() ==> 1 <= #[trigger] rolls[i] <= (if (i % 2 == 0) == f.challenger_to_strike {
            f.challenger_attack as int
        } else {
            f.opponent_attack as int
        })
}

/// The opening of a fight: both sides standing, the challenger to strike.
pub fn start_fight(challenger_hp: i32, challenger_attack: i32, opponent_hp: i32, opponent_attack: i32) -> (f: Fight)
    requires
        challenger_hp >= 1,
        opponent_hp >= 1,
        challenger_attack >= 1,
        opponent_attack >= 1,
    ensures
        f == (Fight { challenger_hp, challenger_attack, opponent_hp, opponent_attack, challenger_to_strike: true }),
        f.wf(),
        !f.is_over(),
{
    Fight { challenger_hp, challenger_attack, opponent_hp, opponent_attack, challenger_to_strike: true }
}

impl Fight {
    /// Whether one side has no hit points left.
    pub fn over(&self) -> (r: bool)
        ensures
            r == self.is_over(),
    {
        self.challenger_hp == 0 || self.opponent_hp == 0
    }

    /// Deals `damage` with the side whose turn it is.
    pub fn strike(&mut self, damage: i32)
        requires
            old(self).wf(),
            damage >= 1,
        ensures
            *final(self) == old(self).struck(damage as int),
            final(self).wf(),
    {
        if self.challenger_hp == 0 || self.opponent_hp == 0 {
            return;
        }
        if self.challenger_to_strike {
            self.opponent_hp = if self.opponent_hp <= damage { 0 } else { self.opponent_hp - damage };
            self.challenger_to_strike = false;
        } else {
            self.challenger_hp = if self.challenger_hp <= damage { 0 } else { self.challenger_hp - damage };
            self.challenger_to_strike = true;
        }
    }
}

/// Strikes never raise hit points nor change attacks.
pub proof fn lemma_run_hp_never_grows(f: Fight, rolls: Seq<int>)
    requires
        f.wf(),
        forall|i: int| 0 <= i < rolls.len() ==> #[trigger] rolls[i] >= 1,
    ensures
        run(f, rolls).challenger_hp <= f.challenger_hp,
        run(f, rolls).opponent_hp <= f.opponent_hp,
        run(f, rolls).challenger_attack == f.challenger_attack,
        run(f, rolls).opponent_attack == f.opponent_attack,
    decreases rolls.len(),
{
    if rolls.len() > 0 {
        let prefix = rolls.drop_last();
        assert forall|i: int| 0 <= i < prefix.len() implies #[trigger] prefix[i] >= 1 by {
            assert(prefix[i] == rolls[i]);
        }
        lemma_run_hp_never_grows(f, prefix);
        assert(rolls[rolls.len() - 1] >= 1);
    }
}


/// Once the fight is over, further strikes change nothing.
pub proof fn lemma_run_stops_when_over(f: Fight, rolls: Seq<int>, n: int)
    requires
        0 <= n <= rolls.len(),
        run(f, rolls.take(n)).is_over(),
    ensures
        run(f, rolls) == run(f, rolls.take(n)),
    decreases rolls.len(),
{
    if rolls.len() > n {
        assert(rolls.drop_last().take(n) =~= rolls.take(n));
        lemma_run_stops_when_over(f, rolls.drop_last(), n);
    } else {
        assert(rolls.take(n) =~= rolls);
    }
}

/// Plays the fight `start` with the given damage rolls, in order, until they
/// run out or the fight is over.
pub fn replay_fight(start: Fight, rolls: &Vec<i32>) -> (end: Fight)
    requires
        start.wf(),
        forall|i: int| 0 <= i < rolls.len() ==> rolls[i] >= 1,
    ensures
        end == run(start, rolls@.map_values(|d: i32| d as int)),
        end.wf(),
{
    let mut f = start;
    let mut i: usize = 0;
    while i < rolls.len()
        invariant
            i <= rolls.len(),
            f.wf(),
            f == run(start, rolls@.map_values(|d: i32| d as int).take(i as int)),
            forall|j: int| 0 <= j < rolls.len() ==> rolls[j] >= 1,
        decreases rolls.len() - i,
    {
        let ghost all = rolls@.map_values(|d: i32| d as int);
        assert(all.take(i as int + 1).drop_last() == all.take(i as int));
        f.strike(rolls[i]);
        i += 1;
    }
    assert(rolls@.map_values(|d: i32| d as int).take(i as int) == rolls@.map_values(|d: i32| d as int));
    f
}

/// Plays the fight `start` to its end with damage drawn from `rng`: each
/// strike deals between 1 and the striker's attack. The end is the fight
/// after some such sequence of strikes, and one side has fallen.
pub fn resolve_fight(start: Fight, rng: &mut StdRng) -> (end: Fight)
    requires
        start.wf(),
    ensures
        end.wf(),
        end.is_over(),
        end.challenger_won() || end.opponent_won(),
        exists|rolls: Seq<int>| valid_rolls(start, rolls) && #[trigger] run(start, rolls) == end,
{
    let mut f = start;
    let ghost mut rolls: Seq<int> = Seq::empty();
    while !f.over()
        invariant
            f.wf(),
            f == run(start, rolls),
            valid_rolls(start, rolls),
            f.challenger_attack == start.challenger_attack,
            f.opponent_attack == start.opponent_attack,
            f.challenger_to_strike == ((rolls.len() % 2 == 0) == start.challenger_to_strike),
        decreases f.challenger_hp + f.opponent_hp,
    {
        let hi = if f.challenger_to_strike { f.challenger_attack } else { f.opponent_attack };
        let d = roll(rng, 1, hi);
        proof {
            let next = rolls.push(d as int);
            assert(next.drop_last() == rolls);
            assert forall|i: int| 0 <= i < next.len() implies 1 <= #[trigger] next[i] <= (if (i % 2 == 0)
                == start.challenger_to_strike {
                start.challenger_attack as int
            } else {
                start.opponent_attack as int
            }) by {
                if i < rolls.len() {
                    assert(next[i] == rolls[i]);
                }
            }
            rolls = next;
        }
        f.strike(d);
    }
    f
}

} // verus!
