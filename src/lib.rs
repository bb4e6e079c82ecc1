//! Per-task state tables and the checkpoint pipeline that makes them durable.
//!
//! `table` holds the two table kinds, their views and epoch checkpointers; `table_manager`
//! the per-task registry with its view cache and the writer end of the state channel;
//! `flusher` the consumer of that channel as a state machine that finalizes and reports
//! checkpoints. `framing`, `config`, `udf` and `worker` hold smaller pieces of the runtime.
pub mod record;
pub mod table;
pub mod flusher;
pub mod table_manager;
pub mod framing;
pub mod config;
pub mod worker;
pub mod udf;
