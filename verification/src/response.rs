//! Marshalling of storage results into HTTP responses.
//!
//! Each function takes the outcome of one storage operation — the rows, the
//! new id, or the storage error text — and returns the status code and JSON
//! body the service sends for it. Every storage failure becomes status 500
//! with the failure envelope carrying the error text; nothing is retried or
//! dropped.

use vstd::prelude::*;
use crate::jsonfmt::{create_body, error_body, list_body, ok_body};
use crate::jsonfmt::{render_create_body, render_error_body, render_list_body, render_ok_body};
use crate::task::Task;

verus! {

/// Success status of a read, an update or a delete.
pub const STATUS_OK: u16 = 200;

/// Success status of a creation.
pub const STATUS_CREATED: u16 = 201;

/// Status of every storage failure.
pub const STATUS_INTERNAL_ERROR: u16 = 500;

/// The response to a listing: 200 with all rows in the data array, or 500
/// with the failure envelope.
pub fn list_response(rows: Result<Vec<Task>, String>) -> (resp: (u16, String))
    ensures
        match rows {
            Ok(ts) => resp.0 == STATUS_OK && resp.1@ == list_body(ts@),
            Err(m) => resp.0 == STATUS_INTERNAL_ERROR && resp.1@ == error_body(m@),
        },
{
    match rows {
        Ok(ts) => (STATUS_OK, render_list_body(&ts)),
        Err(m) => (STATUS_INTERNAL_ERROR, render_error_body(m.as_str())),
    }
}

/// The response to a creation: 201 with the new id, or 500 with the
/// failure envelope.
pub fn create_response(outcome: Result<i32, String>) -> (resp: (u16, String))
    ensures
        match outcome {
            Ok(id) => resp.0 == STATUS_CREATED && resp.1@ == create_body(id as int),
            Err(m) => resp.0 == STATUS_INTERNAL_ERROR && resp.1@ == error_body(m@),
        },
{
    match outcome {
        Ok(id) => (STATUS_CREATED, render_create_body(id)),
        Err(m) => (STATUS_INTERNAL_ERROR, render_error_body(m.as_str())),
    }
}

/// The response to an update: 200 with the bare success envelope — also
/// when no row matched the id — or 500 with the failure envelope.
pub fn update_response(outcome: Result<(), String>) -> (resp: (u16, String))
    ensures
        match outcome {
            Ok(()) => resp.0 == STATUS_OK && resp.1@ == ok_body(),
            Err(m) => resp.0 == STATUS_INTERNAL_ERROR && resp.1@ == error_body(m@),
        },
{
    match outcome {
        Ok(()) => (STATUS_OK, render_ok_body()),
        Err(m) => (STATUS_INTERNAL_ERROR, render_error_body(m.as_str())),
    }
}

/// The response to a delete: 200 with the bare success envelope — also
/// when no row matched the id — or 500 with the failure envelope.
pub fn delete_response(outcome: Result<(), String>) -> (resp: (u16, String))
    ensures
        match outcome {
            Ok(()) => resp.0 == STATUS_OK && resp.1@ == ok_body(),
            Err(m) => resp.0 == STATUS_INTERNAL_ERROR && resp.1@ == error_body(m@),
        },
{
    match outcome {
        Ok(()) => (STATUS_OK, render_ok_body()),
        Err(m) => (STATUS_INTERNAL_ERROR, render_error_body(m.as_str())),
    }
}

} // verus!
