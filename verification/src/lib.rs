//! A streaming bridge between a blocking, unit-by-unit generator and a
//! consumer that pulls byte chunks.
//!
//! A worker owns the loaded model and serves one request at a time: it
//! takes the request off a bounded channel, runs the generator for it, and
//! puts each fragment of text onto a second bounded channel, followed by
//! exactly one terminal marker. An adapter takes the events of one response
//! off that channel and turns them into growing snapshots of the text so
//! far. A full channel makes its sender wait, so neither side runs ahead of
//! the other by more than the channel holds.
//!
//! The decisions of both sides are plain functions from a state and an
//! incoming value to the next state and an answer; `pipeline` puts them
//! together and proves what holds of every run.

pub mod event;
pub mod buffer;
pub mod channel;
pub mod adapter;
pub mod resource;
pub mod engine;
pub mod worker;
pub mod pipeline;
