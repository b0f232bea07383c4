//! Verified core of an archive extraction tool: format detection, entry-path
//! safety, resource limits, volume naming and the per-entry decisions of the
//! extractors and creators.

pub mod text;
pub mod error;
pub mod types;
pub mod paths;
pub mod safety;
pub mod detect;
pub mod volumes;
pub mod extract;
pub mod stream;
pub mod tally;
pub mod creators;
pub mod progress;
pub mod extractors;
pub mod events;
pub mod state;
pub mod launch;
pub mod traits;
