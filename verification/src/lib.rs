//! A pluggable task-execution host: tasks carrying JSON payloads are
//! submitted by name, dispatched to natively loaded plugin modules, and
//! tracked through a `New -> InProgress -> Done` state machine.
//!
//! This crate holds the verified core: the marshalling layer that moves
//! values across the plugin boundary, the keyed task store with monotonic
//! identifier generation, the plugin name registry that is replaced
//! wholesale on reload, and the engine that drives each task through its
//! states while coordinating executions with registry reloads.
//! The unverifiable edges (dynamic module loading, the raw foreign call,
//! process I/O) live in the host application, which drives this core.

pub mod builtins;
pub mod engine;
pub mod jsonio;
pub mod marshal;
pub mod registry;
pub mod store;
pub mod task;

pub use builtins::mul;
pub use builtins::sum;
pub use engine::Dispatch;
pub use engine::Engine;
pub use marshal::c_str_to_json;
pub use marshal::c_str_to_str;
pub use marshal::json_to_c_str;
pub use marshal::str_to_c_str;
pub use registry::Registry;
pub use store::MemoryDb;
pub use task::TaskInput;
pub use task::TaskOutput;
pub use task::TaskResult;
pub use task::TaskState;
