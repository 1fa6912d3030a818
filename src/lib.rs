//! Relevance-ranking core of a desktop quick launcher.
//!
//! Providers turn query text into hits; the query engine routes a query to
//! one keyword provider or fans it out to all others, scores the hits with a
//! fuzzy matcher and orders them deterministically.
pub mod cli;
pub mod config;
pub mod engine;
pub mod frontend;
pub mod hotkeys;
pub mod platform;
pub mod plugin;
pub mod provider;
pub mod providers;
pub mod scoring;
pub mod scroll;
pub mod text;

pub use engine::{QueryEngine, QueryResult};
pub use frontend::{FrontendExitStatus, FrontendMessage};
pub use provider::{Hit, HitAction, Provider, ProviderResult, SimpleHit};
