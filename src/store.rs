use vstd::prelude::*;

use crate::calendar::{local_now, local_today, CalendarDate};
use crate::credential::{argon2_accepts, new_credential, password_admitted, trim_of, trimmed, MAX_PASSWORD_CHARS};
use crate::news::NewsEvent;
use crate::player::{is_fresh, new_player, Player, PlayerInfo, MAX_DAILY_FOREST_FIGHTS};
use crate::text::{lemma_name_before_irreflexive, lemma_name_before_transitive, name_before, name_precedes, names_match, same_name};

verus! {

/// Why a store operation failed.
#[derive(Debug, Clone, Copy, PartialEq, Eq, Structural)]
pub enum StoreError {
    /// Another player already has this name, up to ASCII case.
    DuplicateName,
    /// No player has this id.
    NotFound,
    /// The password could not be hashed.
    Credential,
}

/// The contents of a store: the player records, the news log, the date of
/// the last daily reset and the id the next player will get.
pub struct StoreView {
    pub players: Seq<Player>,
    pub news: Seq<NewsEvent>,
    pub last_reset: Option<CalendarDate>,
    pub next_id: int,
}

/// An in-memory model of the player record store: the records, the news
/// log and the daily-reset marker, with the store's rules (unique ids, names
/// unique up to ASCII case, saves that keep identity and credential, the
/// all-or-nothing pair save, the once-a-day reset) stated and proved. Every
/// operation is one transaction: it applies whole or not at all. A durable
/// store keeps the same rules and takes its reset decision from
/// `reset_is_due`.
pub struct PlayerStore {
    players: Vec<Player>,
    news: Vec<NewsEvent>,
    last_reset: Option<CalendarDate>,
    next_id: i32,
}

impl View for PlayerStore {
    type V = StoreView;

    closed spec fn view(&self) -> StoreView {
        StoreView {
            players: self.players@,
            news: self.news@,
            last_reset: self.last_reset,
            next_id: self.next_id as int,
        }
    }
}

/// The store invariant: every record satisfies the player invariant, ids are
/// below `next_id` and unique, and no two names match up to ASCII case.
pub open spec fn store_wf(v: StoreView) -> bool {
    &&& 1 <= v.next_id <= i32::MAX
    &&& forall|i: int| 0 <= i < v.players.len() ==> #[trigger] v.players[i].wf()
    &&& forall|i: int| 0 <= i < v.players.len() ==> 1 <= #[trigger] v.players[i].id < v.next_id
    &&& forall|i: int, j: int|
        0 <= i < v.players.len() && 0 <= j < v.players.len() && i != j ==> #[trigger] v.players[i].id
            != #[trigger] v.players[j].id
    &&& forall|i: int, j: int|
        0 <= i < v.players.len() && 0 <= j < v.players.len() && i != j ==> !names_match(
            #[trigger] v.players[i].name@,
            #[trigger] v.players[j].name@,
        )
}

/// Some record has a name matching `name` up to ASCII case.
pub open spec fn name_taken(v: StoreView, name: Seq<char>) -> bool {
    exists|i: int| 0 <= i < v.players.len() && names_match(#[trigger] v.players[i].name@, name)
}

/// Some record has id `id`.
pub open spec fn id_known(v: StoreView, id: i32) -> bool {
    exists|i: int| 0 <= i < v.players.len() && #[trigger] v.players[i].id == id
}

/// A record `rec` overwritten by a save of `p` at time `now`: every field
/// but the id, the name and the credential is taken from `p`.
pub open spec fn saved(rec: Player, p: Player, now: i64) -> Player {
    Player { id: rec.id, name: rec.name, password: rec.password, last_login: now, ..p }
}

/// A player after the daily reset: a full forest budget, alive, full health.
pub open spec fn refreshed(p: Player) -> Player {
    Player { forest_fights: MAX_DAILY_FOREST_FIGHTS, alive: true, current_hp: p.max_hp, ..p }
}

/// The daily reset is due when no reset happened yet or the last one was
/// before `today`.
pub open spec fn reset_due(last: Option<CalendarDate>, today: CalendarDate) -> bool {
    match last {
        None => true,
        Some(d) => d.before(today),
    }
}

/// Whether the daily reset is due on `today` after the reset marked `last`.
pub fn reset_is_due(last: Option<CalendarDate>, today: &CalendarDate) -> (r: bool)
    ensures
        r == reset_due(last, *today),
{
    match last {
        None => true,
        Some(d) => d.is_before(today),
    }
}

/// The store after the daily reset coordinator ran on `today`: when due,
/// every player refreshed, one new-day entry logged and the marker set to
/// `today`; otherwise unchanged.
pub open spec fn after_reset(v: StoreView, today: CalendarDate) -> StoreView {
    if reset_due(v.last_reset, today) {
        StoreView {
            players: v.players.map_values(|p: Player| refreshed(p)),
            news: v.news.push(NewsEvent::NewDay),
            last_reset: Some(today),
            next_id: v.next_id,
        }
    } else {
        v
    }
}

/// The listing of `p`.
pub open spec fn info_of(p: Player) -> PlayerInfo {
    PlayerInfo { id: p.id, name: p.name, level: p.level }
}

/// Listings of the living players other than `exclude_id`, in store order.
pub open spec fn alive_listing(players: Seq<Player>, exclude_id: i32) -> Seq<PlayerInfo>
    decreases players.len(),
{
    if players.len() == 0 {
        Seq::empty()
    } else {
        let rest = alive_listing(players.drop_last(), exclude_id);
        let p = players.last();
        if p.alive && p.id != exclude_id {
            rest.push(info_of(p))
        } else {
            rest
        }
    }
}

/// `s` is ordered by name.
pub open spec fn by_name(s: Seq<PlayerInfo>) -> bool {
    forall|i: int, j: int| 0 <= i < j < s.len() ==> !name_before(#[trigger] s[j].name@, #[trigger] s[i].name@)
}

/// The listings `v`, ordered by name; equal names keep their order.
fn sort_by_name(v: &Vec<PlayerInfo>) -> (r: Vec<PlayerInfo>)
    ensures
        r@.to_multiset() == v@.to_multiset(),
        by_name(r@),
{
    let mut r: Vec<PlayerInfo> = Vec::new();
    let mut i: usize = 0;
    assert(v@.take(0) =~= r@);
    while i < v.len()
        invariant
            i <= v@.len(),
            r@.to_multiset() == v@.take(i as int).to_multiset(),
            by_name(r@),
        decreases v.len() - i,
    {
        let p = v[i].duplicate();
        let mut k: usize = 0;
        while k < r.len() && !name_precedes(p.name.as_str(), r[k].name.as_str())
            invariant
                k <= r@.len(),
                forall|m: int| 0 <= m < k ==> !name_before(p.name@, #[trigger] r@[m].name@),
            decreases r.len() - k,
        {
            k += 1;
        }
        let ghost before = r@;
        r.insert(k, p);
        proof {
            let after = r@;
            assert(after == before.insert(k as int, p));
            assert forall|a: int, b: int| 0 <= a < b < after.len() implies !name_before(
                #[trigger] after[b].name@,
                #[trigger] after[a].name@,
            ) by {
                if b < k {
                    assert(after[a] == before[a] && after[b] == before[b]);
                } else if b == k {
                    assert(after[a] == before[a]);
                } else if a < k {
                    assert(after[a] == before[a] && after[b] == before[b - 1]);
                } else if a == k {
                    assert(after[b] == before[b - 1]);
                    assert(name_before(p.name@, before[k as int].name@));
                    if name_before(before[b - 1].name@, p.name@) {
                        lemma_name_before_transitive(before[b - 1].name@, p.name@, before[k as int].name@);
                        if b - 1 > k {
                            assert(!name_before(before[b - 1].name@, before[k as int].name@));
                        } else {
                            lemma_name_before_irreflexive(before[k as int].name@);
                        }
                    }
                } else {
                    assert(after[a] == before[a - 1] && after[b] == before[b - 1]);
                }
            }
            assert(v@.take(i as int + 1) == v@.take(i as int).push(v@[i as int]));
            vstd::seq_lib::to_multiset_insert(before, k as int, p);
            vstd::seq_lib::to_multiset_build(v@.take(i as int), p);
        }
        i += 1;
    }
    assert(v@.take(i as int) == v@);
    r
}

/// The last `limit` entries of `news`, oldest first.
pub open spec fn latest(news: Seq<NewsEvent>, limit: int) -> Seq<NewsEvent> {
    if limit >= news.len() {
        news
    } else {
        news.subrange(news.len() - limit, news.len() as int)
    }
}

/// `a` ranks strictly above `b`: a higher level, or the same level and more
/// experience.
pub open spec fn outranks(a: Player, b: Player) -> bool {
    a.level > b.level || (a.level == b.level && a.exp > b.exp)
}

/// `s` is ordered by rank, highest first.
pub open spec fn ranked(s: Seq<Player>) -> bool {
    forall|i: int, j: int| 0 <= i < j < s.len() ==> !outranks(#[trigger] s[j], #[trigger] s[i])
}

/// `r` lists the `limit` best-ranked players of `players` (all of them when
/// there are fewer), highest first.
pub open spec fn top_listing(players: Seq<Player>, limit: int, r: Seq<PlayerInfo>) -> bool {
    exists|s: Seq<Player>|
        #![trigger s.to_multiset()]
        s.to_multiset() == players.to_multiset() && ranked(s) && r == s.take(
            if limit < s.len() { limit } else { s.len() as int },
        ).map_values(|p: Player| info_of(p))
}

proof fn lemma_names_match_symmetric(a: Seq<char>, b: Seq<char>)
    requires
        names_match(a, b),
    ensures
        names_match(b, a),
{
    assert forall|i: int| 0 <= i < b.len() implies crate::text::same_letter(#[trigger] b[i], a[i]) by {
        assert(crate::text::same_letter(a[i], b[i]));
    }
}

/// Running the daily reset coordinator twice on the same date leaves the
/// store as running it once: the second run finds the marker current.
pub proof fn lemma_daily_reset_idempotent(v: StoreView, today: CalendarDate)
    ensures
        after_reset(after_reset(v, today), today) == after_reset(v, today),
{
}

/// The daily reset keeps the store invariant.
pub proof fn lemma_daily_reset_keeps_wf(v: StoreView, today: CalendarDate)
    requires
        store_wf(v),
    ensures
        store_wf(after_reset(v, today)),
{
    if reset_due(v.last_reset, today) {
        let w = after_reset(v, today);
        assert forall|i: int| 0 <= i < w.players.len() implies #[trigger] w.players[i].wf() by {
            assert(v.players[i].wf());
            assert(w.players[i] == refreshed(v.players[i]));
        }
        assert forall|i: int| 0 <= i < w.players.len() implies 1 <= #[trigger] w.players[i].id < w.next_id by {
            assert(v.players[i].wf());
            assert(w.players[i] == refreshed(v.players[i]));
        }
        assert forall|i: int, j: int| 0 <= i < w.players.len() && 0 <= j < w.players.len() && i != j
        implies #[trigger] w.players[i].id != #[trigger] w.players[j].id by {
            assert(w.players[i] == refreshed(v.players[i]));
            assert(w.players[j] == refreshed(v.players[j]));
            assert(v.players[i].id != v.players[j].id);
        }
        assert forall|i: int, j: int| 0 <= i < w.players.len() && 0 <= j < w.players.len() && i != j
        implies !names_match(#[trigger] w.players[i].name@, #[trigger] w.players[j].name@) by {
            assert(w.players[i] == refreshed(v.players[i]));
            assert(w.players[j] == refreshed(v.players[j]));
            assert(!names_match(v.players[i].name@, v.players[j].name@));
        }
    }
}

impl PlayerStore {
    pub open spec fn wf(&self) -> bool {
        store_wf(self@)
    }

    /// An empty store: no players, no news, no reset yet; ids start at 1.
    pub fn new() -> (s: PlayerStore)
        ensures
            s@.players.len() == 0,
            s@.news.len() == 0,
            s@.last_reset is None,
            s@.next_id == 1,
            s.wf(),
    {
        PlayerStore { players: Vec::new(), news: Vec::new(), last_reset: None, next_id: 1 }
    }

    /// Number of player records.
    pub fn len(&self) -> (n: usize)
        ensures
            n == self@.players.len(),
    {
        self.players.len()
    }

    /// Whether another player may still be created: ids are not exhausted.
    pub fn has_room(&self) -> (r: bool)
        ensures
            r == (self@.next_id < i32::MAX),
    {
        self.next_id < i32::MAX
    }

    /// The date of the last daily reset, if any.
    pub fn last_reset(&self) -> (r: Option<CalendarDate>)
        ensures
            r == self@.last_reset,
    {
        self.last_reset
    }

    fn index_of_id(&self, id: i32) -> (r: Option<usize>)
        ensures
            r matches Some(i) ==> i < self@.players.len() && self@.players[i as int].id == id,
            r is None ==> !id_known(self@, id),
    {
        let mut i: usize = 0;
        while i < self.players.len()
            invariant
                i <= self.players.len(),
                forall|j: int| 0 <= j < i ==> #[trigger] self.players@[j].id != id,
            decreases self.players.len() - i,
        {
            if self.players[i].id == id {
                return Some(i);
            }
            i += 1;
        }
        None
    }

    fn index_of_name(&self, name: &str) -> (r: Option<usize>)
        ensures
            r matches Some(i) ==> i < self@.players.len() && names_match(self@.players[i as int].name@, name@),
            r is None ==> !name_taken(self@, name@),
    {
        let mut i: usize = 0;
        while i < self.players.len()
            invariant
                i <= self.players.len(),
                forall|j: int| 0 <= j < i ==> !names_match(#[trigger] self.players@[j].name@, name@),
            decreases self.players.len() - i,
        {
            if same_name(self.players[i].name.as_str(), name) {
                return Some(i);
            }
            i += 1;
        }
        None
    }

    /// Creates a player named `name` with the stored credential `credential`
    /// and the starting stats, at time `now`. Fails with `DuplicateName`,
    /// changing nothing, exactly when the name is taken up to ASCII case.
    pub fn create_player_with_credential(&mut self, name: &str, credential: String, now: i64) -> (r: Result<Player, StoreError>)
        requires
            old(self).wf(),
            old(self)@.next_id < i32::MAX,
        ensures
            name_taken(old(self)@, name@) ==> r == Err::<Player, StoreError>(StoreError::DuplicateName)
                && final(self)@ == old(self)@,
            !name_taken(old(self)@, name@) ==> (r matches Ok(p) && is_fresh(p, old(self)@.next_id as i32, name@, credential@, now)
                && final(self)@ == (StoreView {
                    players: old(self)@.players.push(p),
                    next_id: old(self)@.next_id + 1,
                    ..old(self)@
                })),
            final(self).wf(),
    {
        if self.index_of_name(name).is_some() {
            return Err(StoreError::DuplicateName);
        }
        let p = new_player(self.next_id, name.to_owned(), credential, now);
        let ghost before = self@;
        self.players.push(p.duplicate());
        self.next_id = self.next_id + 1;
        proof {
            let v = self@;
            assert(v.players == before.players.push(p));
            assert forall|i: int| 0 <= i < v.players.len() implies #[trigger] v.players[i].wf() by {
                if i < before.players.len() {
                    assert(v.players[i] == before.players[i]);
                }
            }
            assert forall|i: int| 0 <= i < v.players.len() implies 1 <= #[trigger] v.players[i].id < v.next_id by {
                if i < before.players.len() {
                    assert(v.players[i] == before.players[i]);
                }
            }
            assert forall|i: int, j: int| 0 <= i < v.players.len() && 0 <= j < v.players.len() && i != j
            implies #[trigger] v.players[i].id != #[trigger] v.players[j].id by {
                if i < before.players.len() {
                    assert(v.players[i] == before.players[i]);
                }
                if j < before.players.len() {
                    assert(v.players[j] == before.players[j]);
                }
            }
            assert forall|i: int, j: int| 0 <= i < v.players.len() && 0 <= j < v.players.len() && i != j
            implies !names_match(#[trigger] v.players[i].name@, #[trigger] v.players[j].name@) by {
                if i < before.players.len() && j < before.players.len() {
                    assert(v.players[i] == before.players[i]);
                    assert(v.players[j] == before.players[j]);
                } else if i < before.players.len() {
                    assert(v.players[i] == before.players[i]);
                    assert(!names_match(before.players[i].name@, name@));
                    if names_match(name@, v.players[i].name@) {
                        lemma_names_match_symmetric(name@, v.players[i].name@);
                    }
                } else {
                    assert(v.players[j] == before.players[j]);
                    assert(!names_match(before.players[j].name@, name@));
                }
            }
        }
        Ok(p)
    }

    /// Creates a player: the name and the password are trimmed; a taken name
    /// (up to ASCII case) gives `DuplicateName`; otherwise a non-blank
    /// password is hashed with Argon2 (a blank one is stored as the empty
    /// credential, meaning none is required) and the record gets the starting
    /// stats and the current time. A failed hash gives `Credential`, which
    /// cannot happen below `MAX_PASSWORD_CHARS`. Nothing changes on failure;
    /// a free name then always succeeds, and the trimmed password verifies
    /// against the stored credential.
    pub fn create_player(&mut self, name: &str, password: &str) -> (r: Result<Player, StoreError>)
        requires
            old(self).wf(),
            old(self)@.next_id < i32::MAX,
        ensures
            r is Err ==> final(self)@ == old(self)@,
            name_taken(old(self)@, trim_of(name@)) ==> r == Err::<Player, StoreError>(StoreError::DuplicateName),
            !name_taken(old(self)@, trim_of(name@)) && trim_of(password@).len() == 0 ==> r is Ok,
            !name_taken(old(self)@, trim_of(name@)) && password@.len() <= MAX_PASSWORD_CHARS ==> r is Ok,
            r == Err::<Player, StoreError>(StoreError::DuplicateName) ==> name_taken(old(self)@, trim_of(name@)),
            r == Err::<Player, StoreError>(StoreError::Credential) ==> !name_taken(old(self)@, trim_of(name@))
                && trim_of(password@).len() > 0,
            r matches Ok(p) ==> {
                &&& is_fresh(p, old(self)@.next_id as i32, trim_of(name@), p.password@, p.last_login)
                &&& trim_of(password@).len() == 0 ==> p.password@.len() == 0
                &&& trim_of(password@).len() > 0 ==> p.password@.len() > 0 && argon2_accepts(
                    trim_of(password@),
                    p.password@,
                )
                &&& trim_of(password@).len() > 0 ==> password_admitted(trim_of(password@), p.password@)
                &&& final(self)@ == (StoreView {
                    players: old(self)@.players.push(p),
                    next_id: old(self)@.next_id + 1,
                    ..old(self)@
                })
            },
            final(self).wf(),
    {
        let name = trimmed(name);
        if self.index_of_name(name).is_some() {
            return Err(StoreError::DuplicateName);
        }
        let credential = match new_credential(password) {
            Some(c) => c,
            None => return Err(StoreError::Credential),
        };
        let now = local_now();
        self.create_player_with_credential(name, credential, now)
    }

    /// The player whose name matches `name` (trimmed) up to ASCII case.
    pub fn get_player_by_name(&self, name: &str) -> (r: Option<Player>)
        requires
            self.wf(),
        ensures
            r is Some <==> name_taken(self@, trim_of(name@)),
            r matches Some(p) ==> names_match(p.name@, trim_of(name@)) && self@.players.contains(p),
    {
        let name = trimmed(name);
        match self.index_of_name(name) {
            Some(i) => Some(self.players[i].duplicate()),
            None => None,
        }
    }

    /// The player with id `id`.
    pub fn get_player_by_id(&self, id: i32) -> (r: Option<Player>)
        requires
            self.wf(),
        ensures
            r is Some <==> id_known(self@, id),
            r matches Some(p) ==> p.id == id && self@.players.contains(p),
    {
        match self.index_of_id(id) {
            Some(i) => Some(self.players[i].duplicate()),
            None => None,
        }
    }

    /// Writes `player` over the record with its id at time `now`: every
    /// field but the id, name and credential, and `last_login := now`.
    fn save_at(&mut self, i: usize, player: &Player, now: i64)
        requires
            old(self).wf(),
            i < old(self)@.players.len(),
            old(self)@.players[i as int].id == player.id,
            player.wf(),
        ensures
            final(self)@ == (StoreView {
                players: old(self)@.players.update(i as int, saved(old(self)@.players[i as int], *player, now)),
                ..old(self)@
            }),
            final(self).wf(),
    {
        let rec = Player {
            id: self.players[i].id,
            name: self.players[i].name.clone(),
            password: self.players[i].password.clone(),
            last_login: now,
            ..player.duplicate()
        };
        let ghost before = self@;
        self.players.set(i, rec);
        proof {
            let v = self@;
            assert forall|k: int| 0 <= k < v.players.len() implies #[trigger] v.players[k].wf() by {
                if k != i {
                    assert(v.players[k] == before.players[k]);
                }
            }
            assert forall|k: int| 0 <= k < v.players.len() implies 1 <= #[trigger] v.players[k].id < v.next_id by {
                assert(before.players[k].id == v.players[k].id);
            }
            assert forall|a: int, b: int| 0 <= a < v.players.len() && 0 <= b < v.players.len() && a != b
            implies #[trigger] v.players[a].id != #[trigger] v.players[b].id by {
                assert(before.players[a].id == v.players[a].id);
                assert(before.players[b].id == v.players[b].id);
            }
            assert forall|a: int, b: int| 0 <= a < v.players.len() && 0 <= b < v.players.len() && a != b
            implies !names_match(#[trigger] v.players[a].name@, #[trigger] v.players[b].name@) by {
                assert(before.players[a].name == v.players[a].name);
                assert(before.players[b].name == v.players[b].name);
            }
        }
    }

    /// Saves `player` over its record, refreshing `last_login` with the
    /// current time; the id, name and credential stay. `NotFound`, with
    /// nothing changed, when no record has its id.
    pub fn update_player(&mut self, player: &Player) -> (r: Result<(), StoreError>)
        requires
            old(self).wf(),
            player.wf(),
        ensures
            !id_known(old(self)@, player.id) ==> r == Err::<(), StoreError>(StoreError::NotFound)
                && final(self)@ == old(self)@,
            id_known(old(self)@, player.id) ==> r is Ok && exists|i: int, now: i64|
                0 <= i < old(self)@.players.len() && old(self)@.players[i].id == player.id
                    && final(self)@ == (StoreView {
                    players: old(self)@.players.update(i, #[trigger] saved(old(self)@.players[i], *player, now)),
                    ..old(self)@
                }),
            final(self).wf(),
    {
        match self.index_of_id(player.id) {
            None => Err(StoreError::NotFound),
            Some(i) => {
                let now = local_now();
                self.save_at(i, player, now);
                Ok(())
            },
        }
    }

    /// Saves the two records of a duel in one transaction: both are written,
    /// at the same current time, or, when either id is unknown, neither is
    /// and the result is `NotFound`.
    pub fn update_pair(&mut self, a: &Player, b: &Player) -> (r: Result<(), StoreError>)
        requires
            old(self).wf(),
            a.wf(),
            b.wf(),
            a.id != b.id,
        ensures
            !(id_known(old(self)@, a.id) && id_known(old(self)@, b.id)) ==> r == Err::<(), StoreError>(StoreError::NotFound)
                && final(self)@ == old(self)@,
            id_known(old(self)@, a.id) && id_known(old(self)@, b.id) ==> r is Ok && exists|i: int, j: int, now: i64|
                0 <= i < old(self)@.players.len() && 0 <= j < old(self)@.players.len()
                    && old(self)@.players[i].id == a.id && old(self)@.players[j].id == b.id
                    && final(self)@ == (StoreView {
                    players: old(self)@.players.update(i, #[trigger] saved(old(self)@.players[i], *a, now)).update(j, #[trigger] saved(old(self)@.players[j], *b, now)),
                    ..old(self)@
                }),
            final(self).wf(),
    {
        let i = match self.index_of_id(a.id) {
            None => return Err(StoreError::NotFound),
            Some(i) => i,
        };
        let j = match self.index_of_id(b.id) {
            None => return Err(StoreError::NotFound),
            Some(j) => j,
        };
        let now = local_now();
        self.save_at(i, a, now);
        self.save_at(j, b, now);
        Ok(())
    }

    /// Appends `event` to the news log.
    pub fn log_event(&mut self, event: NewsEvent)
        requires
            old(self).wf(),
        ensures
            final(self)@ == (StoreView { news: old(self)@.news.push(event), ..old(self)@ }),
            final(self).wf(),
    {
        self.news.push(event);
    }

    /// The latest `limit` news entries, oldest first.
    pub fn get_latest_events(&self, limit: usize) -> (r: Vec<NewsEvent>)
        ensures
            r@ == latest(self@.news, limit as int),
    {
        let n = self.news.len();
        let start = if limit >= n { 0 } else { n - limit };
        let mut r: Vec<NewsEvent> = Vec::new();
        let mut i = start;
        while i < n
            invariant
                start <= i <= n,
                n == self.news@.len(),
                r@ == self.news@.subrange(start as int, i as int),
            decreases n - i,
        {
            r.push(self.news[i].duplicate());
            i += 1;
            assert(r@ =~= self.news@.subrange(start as int, i as int));
        }
        assert(self.news@.subrange(0, n as int) =~= self.news@);
        r
    }

    /// Listings of every living player but `exclude_id`: the possible duel
    /// opponents, ordered by name.
    pub fn list_alive_players(&self, exclude_id: i32) -> (r: Vec<PlayerInfo>)
        ensures
            r@.to_multiset() == alive_listing(self@.players, exclude_id).to_multiset(),
            by_name(r@),
    {
        let mut r: Vec<PlayerInfo> = Vec::new();
        let mut i: usize = 0;
        while i < self.players.len()
            invariant
                i <= self.players@.len(),
                r@ == alive_listing(self.players@.take(i as int), exclude_id),
            decreases self.players.len() - i,
        {
            let ghost prefix = self.players@.take(i as int + 1);
            assert(prefix.drop_last() == self.players@.take(i as int));
            let p = &self.players[i];
            if p.alive && p.id != exclude_id {
                r.push(p.info());
            }
            i += 1;
        }
        assert(self.players@.take(i as int) == self.players@);
        sort_by_name(&r)
    }

    /// Every player record, ordered by rank, highest first; players of equal
    /// rank keep their store order.
    fn ranking(&self) -> (r: Vec<Player>)
        ensures
            r@.to_multiset() == self@.players.to_multiset(),
            ranked(r@),
    {
        let mut r: Vec<Player> = Vec::new();
        let mut i: usize = 0;
        assert(self.players@.take(0) =~= r@);
        while i < self.players.len()
            invariant
                i <= self.players@.len(),
                r@.to_multiset() == self.players@.take(i as int).to_multiset(),
                ranked(r@),
            decreases self.players.len() - i,
        {
            let p = self.players[i].duplicate();
            let mut k: usize = 0;
            while k < r.len() && !(p.level > r[k].level || (p.level == r[k].level && p.exp > r[k].exp))
                invariant
                    k <= r@.len(),
                    forall|m: int| 0 <= m < k ==> !outranks(p, #[trigger] r@[m]),
                decreases r.len() - k,
            {
                k += 1;
            }
            let ghost before = r@;
            r.insert(k, p);
            proof {
                let after = r@;
                assert(after == before.insert(k as int, p));
                assert forall|a: int, b: int| 0 <= a < b < after.len() implies !outranks(#[trigger] after[b], #[trigger] after[a]) by {
                    if b < k {
                        assert(after[a] == before[a] && after[b] == before[b]);
                    } else if b == k {
                        assert(after[a] == before[a]);
                    } else if a < k {
                        assert(after[a] == before[a] && after[b] == before[b - 1]);
                    } else if a == k {
                        assert(after[b] == before[b - 1]);
                        assert(outranks(p, before[k as int]));
                        if b - 1 > k {
                            assert(!outranks(before[b - 1], before[k as int]));
                        }
                    } else {
                        assert(after[a] == before[a - 1] && after[b] == before[b - 1]);
                    }
                }
                assert(self.players@.take(i as int + 1) == self.players@.take(i as int).push(self.players@[i as int]));
                vstd::seq_lib::to_multiset_insert(before, k as int, p);
                vstd::seq_lib::to_multiset_build(self.players@.take(i as int), p);
            }
            i += 1;
        }
        assert(self.players@.take(i as int) == self.players@);
        r
    }

    /// The `limit` best-ranked players (level first, then experience, both
    /// descending), highest first.
    pub fn get_top_players(&self, limit: usize) -> (r: Vec<PlayerInfo>)
        ensures
            top_listing(self@.players, limit as int, r@),
    {
        let sorted = self.ranking();
        let n = if limit < sorted.len() { limit } else { sorted.len() };
        let mut r: Vec<PlayerInfo> = Vec::new();
        let mut i: usize = 0;
        while i < n
            invariant
                i <= n,
                n <= sorted@.len(),
                r@ == sorted@.take(i as int).map_values(|p: Player| info_of(p)),
            decreases n - i,
        {
            r.push(sorted[i].info());
            i += 1;
            assert(r@ =~= sorted@.take(i as int).map_values(|p: Player| info_of(p)));
        }
        assert(r@ == sorted@.take(n as int).map_values(|p: Player| info_of(p)));
        r
    }

    /// The daily reset coordinator: when no reset happened yet or the last
    /// one was before `today`, every player gets a full forest budget, is
    /// revived and fully healed, one new-day entry is logged and the marker
    /// is set to `today`, all at once. Otherwise nothing changes. Returns
    /// whether the reset was performed.
    pub fn daily_reset(&mut self, today: CalendarDate) -> (performed: bool)
        requires
            old(self).wf(),
        ensures
            performed == reset_due(old(self)@.last_reset, today),
            final(self)@ == after_reset(old(self)@, today),
            final(self).wf(),
    {
        if !reset_is_due(self.last_reset, &today) {
            return false;
        }
        let ghost before = self@;
        let mut i: usize = 0;
        while i < self.players.len()
            invariant
                i <= self.players@.len(),
                self.players@.len() == before.players.len(),
                forall|k: int| 0 <= k < i ==> #[trigger] self.players@[k] == refreshed(before.players[k]),
                forall|k: int| i <= k < self.players@.len() ==> #[trigger] self.players@[k] == before.players[k],
                self.news@ == before.news,
                self.last_reset == before.last_reset,
                self.next_id == before.next_id,
            decreases self.players.len() - i,
        {
            let mut p = self.players[i].duplicate();
            p.forest_fights = MAX_DAILY_FOREST_FIGHTS;
            p.alive = true;
            p.current_hp = p.max_hp;
            self.players.set(i, p);
            i += 1;
        }
        self.news.push(NewsEvent::NewDay);
        self.last_reset = Some(today);
        proof {
            assert(self@.players =~= before.players.map_values(|p: Player| refreshed(p)));
            lemma_daily_reset_keeps_wf(before, today);
        }
        true
    }

    /// The daily reset coordinator run on today's local date; returns whether
    /// the reset was performed and the date it was run for.
    pub fn daily_reset_today(&mut self) -> (r: (bool, CalendarDate))
        requires
            old(self).wf(),
        ensures
            final(self)@ == after_reset(old(self)@, r.1),
            r.0 == reset_due(old(self)@.last_reset, r.1),
            1 <= r.1.month <= 12,
            1 <= r.1.day <= 31,
            final(self).wf(),
    {
        let today = local_today();
        let performed = self.daily_reset(today);
        (performed, today)
    }
}

} // verus!
