//! Core of a delayed, retryable task queue kept in an outside key-value
//! store: the job record, the keys it lives under, and the decisions that
//! enqueue, dequeue, delete, length and the promoter make between store calls.
pub mod task;
pub mod outside;
pub mod queue;
pub mod model;
