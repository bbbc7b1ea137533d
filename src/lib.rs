//! Core of a personal study planner's LAN synchronization gateway: the
//! enable/disable lifecycle of the embedded server, the change-notification
//! payloads, the WebSocket session decisions, the REST route table with its
//! static-asset fallback, request validation, and the plain-text helpers the
//! desktop side shares with it.

pub mod text;
pub mod model;
pub mod gateway;
pub mod sync;
pub mod routes;
pub mod assets;
pub mod handlers;
pub mod dates;
pub mod journal;
pub mod paths;
pub mod ranges;
pub mod focus;
pub mod plan;
