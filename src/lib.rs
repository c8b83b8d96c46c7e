pub mod backing_store;
pub mod compositor;
pub mod error;
pub mod layer_shell;
pub mod task_runner;
