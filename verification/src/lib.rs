//! Adaptive review engine for a learning assistant: a fuzzy answer matcher
//! with a configurable acceptance threshold, a Leitner box scheduler for
//! spaced repetition, and the surrounding data model.

pub mod error;
pub mod matcher;
pub mod models;
pub mod parsers;
pub mod scheduler;
pub mod scoring;
pub mod text;
pub mod types;
pub mod ui_state;
pub mod words;

pub use matcher::FuzzyMatcher;
pub use matcher::MatchResult;
pub use models::Card;
pub use models::LearningSet;
pub use models::QuizQuestion;
pub use models::SessionStats;
pub use scheduler::LeitnerBox;
pub use scheduler::LeitnerSummary;
pub use types::CefrLevel;
pub use types::Difficulty;
pub use types::Language;
pub use error::UtilError;
pub use scoring::HighScoreManager;
pub use ui_state::CurrentScreen;
pub use ui_state::FileExplorerState;
pub use ui_state::LearningState;
pub use words::EnglishWord;
pub use words::GermanWord;
pub use words::WordLoader;
