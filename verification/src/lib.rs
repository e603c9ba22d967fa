//! A generic connection pool and the bags of idle entries that it is built on.

pub mod concurrent_bag;
pub mod concurrent_bag_list;
pub mod pool;
mod random;

pub use concurrent_bag::SimpleBag;
pub use concurrent_bag_list::ConcurrentBag;
pub use pool::{ConnectionPool, ConnectionPoolConfig, GetStep, HkcpError, InitStep};
