//! Verified core of the Coven command line tool.

pub mod autostart_task;
pub mod delegation;
pub mod delegation_cleanup;
pub mod delegation_executor;
pub mod delegation_matrix;
pub mod digest;
pub mod executor_job;
pub mod executor_node;
pub mod fault;
pub mod executor_autostart;
pub mod executor_control;
pub mod familiars;
pub mod http;
pub mod ids;
pub mod integration;
pub mod json;
pub mod launch;
pub mod lifecycle;
pub mod live;
pub mod live_events;
pub mod live_gate;
pub mod matrix_aggregate;
pub mod memory;
pub mod memory_content;
pub mod moment;
pub mod numbers;
pub mod order;
pub mod paths;
pub mod recovery_log;
pub mod research;
pub mod response;
pub mod serve;
pub mod shutdown;
pub mod supervision;
pub mod table;
pub mod text;
pub mod trust;
