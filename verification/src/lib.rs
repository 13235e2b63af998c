//! A connection-scoped batch transfer engine for S3-compatible object stores.
//!
//! The engine turns one logical request ("download this folder", "move these
//! objects") into an ordered, failure-tolerant set of primitive remote calls,
//! run with bounded concurrency and reported as one aggregated result. It owns
//! no sockets and no threads: every remote call is handed to the caller as a
//! value, and its reply is handed back as a value.
//!
//! - [`registry`] keeps the live connections, each with its client.
//! - [`remote`] names the primitive calls and the answers of a store.
//! - [`lister`] resolves a folder into the objects under it, page by page.
//! - [`request`] says what a caller asks for and plans the work of a target.
//! - [`item`] is the life of one item: its calls, its retries, its end.
//! - [`batch`] coordinates one request from its submission to its result.
//! - [`outcome`] holds what became of each item and of the batch.
//! - [`model`] is the batch as a state machine over plain values; [`steps`]
//!   proves that every step keeps its invariant, [`laws`] what follows for
//!   every run, and [`store`] what a move and a delete leave in the store.
//! - [`retry`], [`keys`] and [`text`] hold the rules of retries, of keys and
//!   prefixes, and of texts.
//! - [`platform`] decides on the rendering workaround of packaged builds.

pub mod batch;
pub mod item;
pub mod keys;
pub mod laws;
pub mod lister;
pub mod model;
pub mod outcome;
pub mod platform;
pub mod registry;
pub mod remote;
pub mod request;
pub mod retry;
pub mod steps;
pub mod store;
pub mod text;
