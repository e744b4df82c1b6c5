//! Readiness of monitored pods, reported to webhooks.
//!
//! A pod opts into monitoring by an annotation whose value is the URL of a
//! webhook. Once per polling cycle the pods of the cluster are listed, the
//! readiness of the pods behind each webhook is folded into one status, `Up`
//! or `Down`, and each webhook is told the status of its pods.
//!
//! This crate holds the rules of that loop and leaves the talking to its
//! driver: it takes what the cluster listed and says what to send, where, and
//! when to list again.
//!
//! - [`pod`]: what is read of a pod, and the monitoring annotation.
//! - [`status`]: the two statuses and the payload that reports one.
//! - [`state`]: the statuses of one cycle, one per webhook.
//! - [`aggregate`]: from a listing to the statuses of a cycle.
//! - [`notify`]: from the statuses of a cycle to its deliveries.
//! - [`interval`]: the polling interval and its setting.
//! - [`scheduler`]: the order of listing, delivering and waiting.
//! - [`json`], [`text`]: JSON text by `serde_json`, and text comparison.

pub mod aggregate;
pub mod interval;
pub mod json;
pub mod notify;
pub mod pod;
pub mod scheduler;
pub mod state;
pub mod status;
pub mod text;
