//! Issuing and grading image-grid challenges.
//!
//! The library holds the decisions of the challenge engine: which images form a
//! collection, where a thumbnail lives, how a challenge is drawn and laid out,
//! and how answers and tokens are redeemed. Locks, queues and files belong to
//! the program around it.
pub mod challenge;
pub mod collection;
pub mod config;
pub mod error;
pub mod ledger;
pub mod ids;
pub mod imaging;
pub mod paths;
pub mod sampler;
pub mod thumbnail;
pub mod worker;

pub use challenge::Challenge;
pub use collection::{build_collections, Collection, FileEntry, RootEntry};
pub use config::{default_eight, default_size, default_three};
pub use error::Error;
pub use ledger::Ledger;
pub use ids::parse_challenge_id;
pub use imaging::{canvas_side, cell_origin, compose, make_thumbnail, reuse_thumbnail, Picture, Thumbnail};
pub use sampler::{draw_challenge, draw_from, Draw};
pub use thumbnail::{FetchStage, ThumbnailAction, ThumbnailEvent, ThumbnailFetch};
pub use paths::{is_thumbnail_name, thumbnail_path};
pub use worker::{first_action, next_action, WorkerAction, WorkerEvent, BACKOFF_MILLIS};
