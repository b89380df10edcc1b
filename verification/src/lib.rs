//! Core logic of a timed trivia game: session issuance with a procedurally
//! generated prompt menu, time-windowed answer tallying against per-session
//! scorecards, and a fixed-size global leaderboard.
//!
//! The surrounding service keeps all state in an external key-value store and
//! performs every store read and write itself; the functions here are pure
//! transitions from the values it read to the values it must write back.
//! The store's read-modify-write cycles are not atomic: two concurrent
//! tallies for one session can both start from the same prior scorecard and
//! the later write wins, losing one increment. Callers that need stronger
//! guarantees must serialize writers per key.
mod highscore;
mod ids;
mod query;
mod scorecard;
mod session;
mod tally;

pub use highscore::HighScore;
pub use highscore::HighScoreResult;
pub use highscore::SubmitError;
pub use highscore::delete_highscore;
pub use highscore::get_highscore;
pub use highscore::lemma_board_props;
pub use highscore::lemma_sort_desc_permutes;
pub use highscore::replace_highscore;
pub use highscore::submit_score;

pub use ids::GAME_DURATION_MS;
pub use ids::TallyError;
pub use ids::check_session;
pub use ids::lemma_session_window;
pub use ids::validate_ulid;

pub use query::get_param;
pub use query::simple_query_parser;

pub use scorecard::Scorecard;
pub use scorecard::apply_tally;
pub use scorecard::is_session_key;
pub use scorecard::lemma_unknown_category;
pub use scorecard::read_scorecard;
pub use scorecard::scorecard_key;

pub use session::MAX_INDEX;
pub use session::MenuItem;
pub use session::Payload;
pub use session::build_menu;
pub use session::issue_session;
pub use session::random_flavour;

pub use tally::Tally;
pub use tally::get_ulid;
pub use tally::parse_query_params;
pub use tally::tally_score;
