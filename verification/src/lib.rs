//! Hierarchical state charts: definition-space and instance-space identifiers,
//! a chart data model built from schema-validated generic input, and a runtime
//! engine that fires guarded transitions with ordered entry and exit actions.

pub mod error;
pub mod ids;
pub mod node;
pub mod state_charts;
pub mod state_machine;
pub mod state_machine_log;
pub mod values;
pub mod warehouse;
pub mod text;

pub use state_charts::VariableValue;
