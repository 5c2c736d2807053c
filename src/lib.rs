//! A small stack-based virtual machine: a tokenizer for its textual programs,
//! a label resolver, a catalog of stack operations and the machine that runs them.
pub mod error;
pub mod labels;
pub mod laws;
pub mod machine;
pub mod operations;
pub mod semantics;
pub mod side_effect;
pub mod tokenizer;
pub mod value;

pub use error::StackError;
pub use machine::{Machine, RunResult, StepResult};
pub use operations::StackOperation;
pub use semantics::MachineOperation;
pub use side_effect::SideEffect;
pub use tokenizer::{tokenize, Code};
pub use value::StackValue;
