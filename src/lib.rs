//! Client side of the workflow-command protocol that a CI runner offers to a
//! running job: inputs, outputs, log annotations and the run's context.
pub mod context;
pub mod environment;
pub mod error;
pub mod logger;
pub mod util;
pub mod workflow;
