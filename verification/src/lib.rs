//! A pool of ClickHouse connections.

pub mod binding;
pub mod calls;
pub mod client;
pub mod effects;
pub mod host;
pub mod inner;
pub mod laws;
pub mod model;
pub mod options;
pub mod pool;
pub mod queue;
pub mod retry;
pub mod text;

pub use binding::{PoolBinding, PoolId};
pub use client::{ClientHandle, HandleDrop, Transport};
pub use host::{names_text_port, Host, InvalidUrl, TEXT_PROTOCOL_PORT};
pub use inner::{pending_open_limit, Inner, PENDING_OPEN_LIMIT};
pub use model::{OpenPoll, PENDING_OPEN_POLL_BUDGET};
pub use options::{Delay, IntoOptions, InvalidOptions, Options, OptionsSource};
pub use pool::{
    Dropped, GetHandle, Polled, Pool, PoolInfo, Returned, Settled, Step, Sweep, Swept,
    DEFAULT_MAX, DEFAULT_MIN,
};
pub use retry::{Attempt, IoErrorKind, Retry, RetryOpen};
