//! Asynchronous delays driven by one periodic alarm: a fixed pool of wake
//! entries, the futures that hold them, and the sweep that resumes them.

pub mod future;
pub mod lifecycle;
pub mod scheduler;
pub mod sharedstate;

pub use future::{DelayFuture, DelayPoll};
pub use scheduler::DelayScheduler;
pub use sharedstate::{DelayError, SharedState, WakerSlot};
