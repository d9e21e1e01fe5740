//! Background job subsystem of a feed follower: the job model, the feed diff
//! engine, the trigger scheduler and the worker's decisions, with their
//! contracts.

pub mod handlers;
pub mod jobs;
pub mod rss;
pub mod text;
pub mod time;
pub mod trigger;
pub mod worker;
