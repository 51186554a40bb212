//! A single-slot, re-arming completion.
//!
//! One boolean flag decides whether readers of a device must wait. A writer
//! clears the flag and wakes every waiter; the first waiter to look at the
//! cleared flag sets it again and returns, so each signal releases exactly one
//! reader. The host supplies the lock and the condition variable and runs the
//! blocking loop; this crate holds the decisions taken while the lock is held,
//! and the proofs of what they guarantee.
pub mod state;
pub mod endpoint;
pub mod model;

pub use endpoint::Allocation;
pub use endpoint::Cdev;
pub use endpoint::Error;
pub use endpoint::ReadStep;
pub use endpoint::WriteDone;
pub use state::CompletionState;
pub use state::WaitStep;
pub use state::Wake;
