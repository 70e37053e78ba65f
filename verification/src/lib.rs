//! The verified rules of a binding layer for a callback-driven nonlinear
//! optimizer.
//!
//! The optimizer itself is native code that this crate never calls. What is
//! kept here is everything the layer decides on the way to it and back:
//!
//! - [`status`]: how the optimizer's signed status codes are typed;
//! - [`foreign`]: the calls that can be made, as data;
//! - [`problem`]: which call each operation on a problem leads to, with which
//!   arguments, and what the answer does to the problem's record;
//! - [`registry`]: the closure contexts that the optimizer refers to by
//!   address, each owned from the answer that registers it to the answer that
//!   replaces or removes it;
//! - [`context`]: what the callback that the optimizer invokes does with a
//!   closure and its answer;
//! - [`lifecycle`]: what holds of a problem's record over its whole life.

pub mod context;
pub mod foreign;
pub mod lifecycle;
pub mod problem;
pub mod registry;
pub mod status;

pub use context::{deliver, write_gradient, ClosureContext, Objective};
pub use foreign::{Call, Effect, Registration};
pub use problem::{ObjectiveType, Phase, Problem, Settlement, StopCond, Teardown};
pub use registry::{ConstraintType, Registry, Role, Slot};
pub use status::{to_res, NLError, NLResult, Res};
