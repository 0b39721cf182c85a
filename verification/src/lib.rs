//! A verified core for a small task-management HTTP service.
//!
//! The library models the service's storage (a table of tasks keyed by a
//! server-assigned id) and the marshalling of operation results into HTTP
//! status codes and JSON response bodies. Network and database I/O live
//! outside the library and hand it plain values.

pub mod jsonfmt;
pub mod laws;
pub mod response;
pub mod service;
pub mod store;
pub mod task;

pub use service::TaskService;
pub use store::TaskStore;
pub use task::Task;
