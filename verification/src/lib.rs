//! A live media-processing graph built from a declarative source topology,
//! and the session lifecycle that keeps networked sources alive.
//!
//! The library decides and keeps the books; it performs no I/O. A graph
//! ([`bin_builder::BinBuilder`]) records its nodes, links, boundary ports,
//! listeners and timers, and queues an instruction for the media runtime with
//! every change. Whoever runs the graph hands those instructions to the
//! runtime, and hands the runtime's events back: a port that appeared
//! ([`bin_builder::BinBuilder::port_attached`]) or a timer that is due
//! ([`source::camera_rtsp::CameraRtspInterpreterImpl::renew_stream`]). Time
//! is counted in whole units on the event loop's clock.
//!
//! Every operation is stated as a function on [`model::GraphModel`]; what
//! holds of every graph is proved in [`laws`].

pub mod bin_builder;
pub mod catalog;
pub mod error;
pub mod google_api;
pub mod graph;
pub mod laws;
pub mod model;
pub mod pipeline_builder;
pub mod search;
pub mod source;
