use vstd::prelude::*;

use crate::monster::MonsterKind;

verus! {

/// An entry of the append-only news log.
#[derive(Debug, Clone, PartialEq, Eq)]
pub enum NewsEvent {
    /// `player` reached `level`.
    LevelUp { player: String, level: i32 },
    /// `player` slew a notable monster in the forest.
    MonsterSlain { player: String, monster: MonsterKind },
    /// `player` was slain by a monster in the forest.
    SlainByMonster { player: String, monster: MonsterKind },
    /// `winner` defeated the challenged `loser` in a duel.
    DuelWon { winner: String, loser: String },
    /// The challenger `loser` was killed by `winner` in a duel.
    DuelLost { loser: String, winner: String },
    /// `player` married the tavern barmaid.
    Married { player: String },
    /// A new day began and every hero was refreshed.
    NewDay,
}

impl NewsEvent {
    /// A copy of this entry, known to equal it.
    pub fn duplicate(&self) -> (r: NewsEvent)
        ensures
            r == *self,
    {
        match self {
            NewsEvent::LevelUp { player, level } => NewsEvent::LevelUp { player: player.clone(), level: *level },
            NewsEvent::MonsterSlain { player, monster } => NewsEvent::MonsterSlain { player: player.clone(), monster: *monster },
            NewsEvent::SlainByMonster { player, monster } => NewsEvent::SlainByMonster { player: player.clone(), monster: *monster },
            NewsEvent::DuelWon { winner, loser } => NewsEvent::DuelWon { winner: winner.clone(), loser: loser.clone() },
            NewsEvent::DuelLost { loser, winner } => NewsEvent::DuelLost { loser: loser.clone(), winner: winner.clone() },
            NewsEvent::Married { player } => NewsEvent::Married { player: player.clone() },
            NewsEvent::NewDay => NewsEvent::NewDay,
        }
    }
}

/// One level-up entry for each level from `from_level + 1` to
/// `from_level + count`, in order.
pub open spec fn level_up_news(name: String, from_level: int, count: nat) -> Seq<NewsEvent> {
    Seq::new(count, |i: int| NewsEvent::LevelUp { player: name, level: (from_level + 1 + i) as i32 })
}

/// The level-up entries for a player who went up `count` levels from
/// `from_level`.
pub fn level_up_events(name: &String, from_level: i32, count: u32) -> (r: Vec<NewsEvent>)
    requires
        0 <= from_level,
        from_level + count <= i32::MAX,
    ensures
        r@ == level_up_news(*name, from_level as int, count as nat),
{
    let mut r: Vec<NewsEvent> = Vec::new();
    let mut i: u32 = 0;
    while i < count
        invariant
            i <= count,
            0 <= from_level,
            from_level + count <= i32::MAX,
            r@ == level_up_news(*name, from_level as int, i as nat),
        decreases count - i,
    {
        let ghost before = r@;
        r.push(NewsEvent::LevelUp { player: name.clone(), level: from_level + 1 + i as i32 });
        i += 1;
        assert(r@ =~= level_up_news(*name, from_level as int, i as nat)) by {
            assert forall|j: int| 0 <= j < i implies r@[j] == level_up_news(*name, from_level as int, i as nat)[j] by {
                if j < i - 1 {
                    assert(r@[j] == before[j]);
                }
            }
        }
    }
    r
}

} // verus!
