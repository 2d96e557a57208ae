//! A verified model of an on-chain job scheduler: owners register calls to be
//! made on a schedule and prepay a fee per run; staked keepers execute due
//! jobs and collect the fee.
pub mod address;
pub mod errors;
pub mod types;
pub mod digest;
pub mod events;
pub mod env;
pub mod storage;
pub mod registry;
pub mod executor;
pub mod ttl_guardian;
pub mod laws;
pub mod accounting;

pub use address::{Address, AddressKind};
pub use env::{Context, HostOp, TargetCall, Transfer};
pub use errors::Error;
pub use events::Event;
pub use registry::{next_run_after, ResolverReply, SoroCron};
pub use types::{Config, Job, JobParams, Keeper};
