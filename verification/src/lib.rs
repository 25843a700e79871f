//! Scheduled execution engine for a sandboxed-agent assistant.
//!
//! The library holds the verified core: the output protocol parser, the
//! schedule calculator, the task store model, and the scheduler's decision
//! logic. Process management, networking and persistence live outside it.

pub mod container_runner;
pub mod db;
pub mod error;
pub mod logging;
pub mod task_scheduler;
pub mod telegram;
pub mod text;
pub mod types;
pub mod whatsapp;
