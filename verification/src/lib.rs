//! A fuzzy finder engine: candidate lines are scored against a query, blended
//! with a per-path frecency weight, and the best `k` are kept in a bounded
//! heap. Scores are fixed-point integers, see [`score::SCORE_UNIT`].

pub mod dispatch;
pub mod frecency;
pub mod heap;
pub mod incremental;
pub mod laws;
pub mod lookup;
pub mod matcher;
pub mod rank;
pub mod request;
pub mod score;
pub mod topk;
pub mod value;

pub use crate::dispatch::{
    Arrival, Command, Failure, Host, Outcome, Phase, Routed, Worker, CHUNK_SIZE, NO_QUERY,
};
pub use crate::frecency::{FrequencyCounter, FRECENCY_CAPACITY};
pub use crate::incremental::{IncrementalMatcher, Progress, Session};
pub use crate::lookup::{lookup, LookupError};
pub use crate::matcher::{Line, Matcher, OwnedLine};
pub use crate::rank::rank_order;
pub use crate::request::{
    line_from_value, request_from_value, serve, Field, MatchRequest, Reply, Request, RequestError,
};
pub use crate::score::{decay, Match, FREQUENCY_WEIGHT, SCORE_UNIT};
pub use crate::topk::TopK;
