//! A text role-playing game core: player records, leveling, monster
//! encounters, duels, tavern romance and the daily reset, with every rule
//! stated as a contract and proved.

pub mod player;
pub mod leveling;
pub mod dice;
pub mod monster;
pub mod combat;
pub mod news;
pub mod forest;
pub mod pvp;
pub mod text;
pub mod romance;
pub mod calendar;
pub mod credential;
pub mod store;
