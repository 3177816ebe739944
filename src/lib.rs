//! Candle time-bucket keys, series assembly and the decision logic of the
//! indicator pipeline, with their contracts.

pub mod clock;
pub mod series;
pub mod symbols;
pub mod jobs;
pub mod keys;
pub mod positions;

pub use clock::bucket_keys;
pub use series::chronological;
pub use keys::{bucket_key, output_key, pad, BucketTime};
pub use positions::{place_positions, rate_defined, Extreme, Placement, StepFacts, WARM_UP};
pub use jobs::{next_step, timeframes, JobEvent, JobOutcome, JobStep, JobTally};
pub use symbols::split_symbols;
