//! A fixed-size worker pool, split into the parts that can be reasoned about
//! sequentially: the job channel that workers consume from, the decision a
//! worker takes after each consume attempt, and the owner-side bookkeeping of
//! the pool itself.

pub mod channel;
pub mod lifecycle;
pub mod pool;
pub mod worker;

pub use channel::{JobChannel, Message};
pub use pool::{Teardown, ThreadPool};
pub use worker::{next_step, Step, Worker};
