//! A resumable crawler for a four-level vehicle price catalog (reference
//! period, brand, model, year/fuel variant), with its logic verified:
//!
//! - `catalog`: the store's tables, their scoped natural keys (never
//!   duplicated), and what each stage's unit of work writes;
//! - `frontier`: the pending work of each stage, computed from the store,
//!   with one request per model identity (code, vehicle type);
//! - `gateway`: the fetch gateway's retry decisions and request payloads;
//! - `policy`: how each persistence outcome is classified and acted upon;
//! - `laws`: what holds across calls (idempotent reruns, shrinking frontiers,
//!   one fetch fanned out to every replica row);
//! - `text`, `sql`, `schema`, `ui`: parsing, statements, records, menus.
use vstd::prelude::*;

pub mod catalog;
pub mod frontier;
pub mod gateway;
pub mod laws;
pub mod policy;
pub mod schema;
pub mod sql;
pub mod text;
pub mod ui;

verus! {

} // verus!
