//! Rules engine and turn sequencer for Estimation Whist, a four-suit
//! trick-taking card game with bidding.
//!
//! Cards travel through the engine as legacy ids `1..=52`
//! (`13 * suit + rank`, suits in the order clubs, diamonds, spades, hearts,
//! ranks ace = 1 up to king = 13).
//!
//! The rules live in `card`, `deck`, `trick`, `ai`, `scoring` and `state`;
//! `bidding` and `controller` run a round on a `GameState` and hand control
//! back to the host wherever the human player or the screen comes in.
//! `config`, `layout`, `things` and `high_scores` hold what a host needs
//! beside the game itself; `bmp`, `res` and `background` serve the tools
//! that prepare the card pictures.

pub mod ai;
pub mod background;
pub mod bidding;
pub mod bmp;
pub mod card;
pub mod config;
pub mod controller;
pub mod deck;
pub mod high_scores;
pub mod layout;
pub mod res;
pub mod rng;
pub mod scoring;
pub mod state;
pub mod things;
pub mod trick;

pub use card::{rank_value, suit_index_from_legacy_id, Card, Rank, Suit};
pub use config::GameConfig;
pub use deck::Deck;
pub use scoring::{score_hand, ScoreMode};
pub use trick::{decide_trick_winner, is_legal_play, sort_hand_for_display};
