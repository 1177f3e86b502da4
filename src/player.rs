use vstd::prelude::*;

verus! {

/// Largest number of forest fights a player gets per day.
pub const MAX_DAILY_FOREST_FIGHTS: i32 = 10;

/// Gold a new character starts with.
pub const STARTING_GOLD: i32 = 100;

/// Hit points (current and maximum) of a new character.
pub const STARTING_HP: i32 = 20;

/// Attack of a new character.
pub const STARTING_ATTACK: i32 = 5;

/// Defense of a new character.
pub const STARTING_DEFENSE: i32 = 2;

/// Experience needed to leave `level`.
pub open spec fn threshold(level: int) -> int {
    level * 100
}

/// One player character.
#[derive(Debug, Clone, PartialEq, Eq)]
pub struct Player {
    /// Unique identifier, fixed at creation.
    pub id: i32,
    /// Character name, unique up to ASCII case.
    pub name: String,
    /// Stored credential hash; empty means no password is required.
    pub password: String,
    pub level: i32,
    pub exp: i32,
    pub gold: i32,
    pub current_hp: i32,
    pub max_hp: i32,
    pub attack: i32,
    pub defense: i32,
    /// Forest encounters left for today.
    pub forest_fights: i32,
    pub alive: bool,
    /// Romance points with the tavern barmaid.
    pub romance: i32,
    /// Name of the spouse, empty when unmarried.
    pub spouse: String,
    /// Time of the last save, in seconds since the Unix epoch (local time).
    pub last_login: i64,
}

/// Lightweight listing of a player for opponent lists and rankings.
#[derive(Debug, Clone, PartialEq, Eq)]
pub struct PlayerInfo {
    pub id: i32,
    pub name: String,
    pub level: i32,
}

impl PlayerInfo {
    /// A copy of this listing, known to equal it.
    pub fn duplicate(&self) -> (r: PlayerInfo)
        ensures
            r == *self,
    {
        PlayerInfo { id: self.id, name: self.name.clone(), level: self.level }
    }
}

impl Player {
    /// The combat-readiness part of the invariant: hit points within bounds,
    /// `alive` exactly when hit points are left, a sane fight budget and stats.
    pub open spec fn vitals_ok(&self) -> bool {
        &&& self.level >= 1
        &&& self.max_hp >= 1
        &&& 0 <= self.current_hp <= self.max_hp
        &&& self.alive == (self.current_hp > 0)
        &&& 0 <= self.forest_fights <= MAX_DAILY_FOREST_FIGHTS
        &&& self.attack >= 1
        &&& self.defense >= 0
        &&& self.gold >= 0
        &&& self.romance >= 0
    }

    /// The full invariant of a stored player: vitals, and experience kept
    /// below the threshold of the current level.
    pub open spec fn wf(&self) -> bool {
        &&& self.vitals_ok()
        &&& 0 <= self.exp < threshold(self.level as int)
    }

    /// Whether the player satisfies the invariant `wf`, as a record read back
    /// from storage must.
    pub fn check_invariant(&self) -> (r: bool)
        ensures
            r == self.wf(),
    {
        self.level >= 1 && self.max_hp >= 1 && 0 <= self.current_hp && self.current_hp <= self.max_hp
            && self.alive == (self.current_hp > 0) && 0 <= self.forest_fights
            && self.forest_fights <= MAX_DAILY_FOREST_FIGHTS && self.attack >= 1 && self.defense >= 0
            && self.gold >= 0 && self.romance >= 0 && 0 <= self.exp && (self.level > i32::MAX / 100
            || self.exp < self.level * 100)
    }

    /// Experience needed to reach the next level: `level * 100`.
    pub fn xp_to_next_level(&self) -> (r: i32)
        requires
            self.level >= 1,
            threshold(self.level as int) <= i32::MAX,
        ensures
            r == threshold(self.level as int),
    {
        self.level * 100
    }

    /// A field-by-field copy whose result is known to equal `self`.
    pub fn duplicate(&self) -> (r: Player)
        ensures
            r == *self,
    {
        Player {
            id: self.id,
            name: self.name.clone(),
            password: self.password.clone(),
            level: self.level,
            exp: self.exp,
            gold: self.gold,
            current_hp: self.current_hp,
            max_hp: self.max_hp,
            attack: self.attack,
            defense: self.defense,
            forest_fights: self.forest_fights,
            alive: self.alive,
            romance: self.romance,
            spouse: self.spouse.clone(),
            last_login: self.last_login,
        }
    }

    /// The listing of this player.
    pub fn info(&self) -> (r: PlayerInfo)
        ensures
            r.id == self.id,
            r.name == self.name,
            r.level == self.level,
    {
        PlayerInfo { id: self.id, name: self.name.clone(), level: self.level }
    }
}

/// `p` is a newly created character: level 1, no experience, 100 gold, 20
/// of 20 hit points, attack 5, defense 2, a full forest budget, alive, no
/// romance and no spouse.
pub open spec fn is_fresh(p: Player, id: i32, name: Seq<char>, password: Seq<char>, now: i64) -> bool {
    &&& p.id == id
    &&& p.name@ == name
    &&& p.password@ == password
    &&& p.level == 1
    &&& p.exp == 0
    &&& p.gold == STARTING_GOLD
    &&& p.current_hp == STARTING_HP
    &&& p.max_hp == STARTING_HP
    &&& p.attack == STARTING_ATTACK
    &&& p.defense == STARTING_DEFENSE
    &&& p.forest_fights == MAX_DAILY_FOREST_FIGHTS
    &&& p.alive
    &&& p.romance == 0
    &&& p.spouse@ == Seq::<char>::empty()
    &&& p.last_login == now
}

/// Builds a new character as `is_fresh` describes; it satisfies the invariant.
pub fn new_player(id: i32, name: String, password: String, now: i64) -> (p: Player)
    ensures
        is_fresh(p, id, name@, password@, now),
        p.wf(),
{
    Player {
        id,
        name,
        password,
        level: 1,
        exp: 0,
        gold: STARTING_GOLD,
        current_hp: STARTING_HP,
        max_hp: STARTING_HP,
        attack: STARTING_ATTACK,
        defense: STARTING_DEFENSE,
        forest_fights: MAX_DAILY_FOREST_FIGHTS,
        alive: true,
        romance: 0,
        spouse: String::new(),
        last_login: now,
    }
}

} // verus!
