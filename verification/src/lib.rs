//! A store of to-do lists, one per identity on the chain. An identity buys
//! main tasks, adds sub-tasks to the last main task it bought, and marks
//! sub-tasks as done; nothing is ever removed.
//!
//! `model` says what a store is and what each request makes of it, `store`
//! and `task` hold the code that does it, and `laws` states what follows for
//! every run of requests. `payload` decodes the requests' parameters and
//! `payment` knows the price.

pub mod error;
pub mod identity;
pub mod laws;
pub mod model;
pub mod payload;
pub mod payment;
pub mod store;
pub mod task;

pub use error::ReceiveError;
pub use store::TaskStore;
pub use task::{MainTask, SubTask, User};
