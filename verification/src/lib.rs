//! Maintenance engine for a pool of working proxy endpoints.
//!
//! Candidate endpoints are gathered from several listing sites, probed
//! under a limit on the probes that run at once, merged with what is left
//! of the previous pool and published as the next pool generation.
//! Everything that decides lives here and is proved; fetching, probing and
//! serving are left to the caller, which performs what it is asked to and
//! feeds the outcomes back.
//!
//! - [`source`] and [`scrape`]: where the candidates are listed and how
//!   they are read out of a page;
//! - [`collector`]: the batches of the sources put together;
//! - [`chunk`]: a batch cut into groups of bounded size;
//! - [`probe`], [`round`], [`validation`], [`validator`]: which candidate
//!   is probed when, and what the outcomes make of the batch;
//! - [`pool`]: pool generations and the merge of two;
//! - [`store`]: the current generation;
//! - [`scheduler`]: bootstrap, serve, refresh;
//! - [`accessor`]: what a reader is given;
//! - [`config`]: the tunable values.

pub mod accessor;
pub mod chunk;
pub mod collector;
pub mod config;
pub mod pool;
pub mod probe;
pub mod round;
pub mod scheduler;
pub mod scrape;
pub mod source;
pub mod store;
pub mod validation;
pub mod validator;
