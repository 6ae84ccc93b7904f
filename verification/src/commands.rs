//! The discrete sidebar operations: each mutates the state, reports whether
//! it must be persisted, and returns the compositor commands to issue.
pub mod close;
pub mod cycle;
pub mod flip;
pub mod focus;
pub mod listen;
pub mod movefrom;
pub mod visibility;
pub mod reorder;
pub mod togglewindow;

pub use reorder::reorder;
