//! Resumable computations as explicit state machines.
//!
//! A [`block::Block`] describes a sequential computation with explicit
//! suspension points. A [`coroutine::Coroutine`] runs a block, one step for
//! each time its driver resumes it. Three transforms present a coroutine in
//! the shape a driver expects: a single eventual result
//! ([`future::FutureTransform`]), a lazily produced sequence
//! ([`stream::StreamTransform`]) and a consumer of supplied values
//! ([`sink::SinkTransform`]). [`forward::Forward`] pumps a stream into a sink
//! under backpressure.
//!
//! Every computation has a mathematical model, and every operation states
//! exactly how it moves that model; [`laws`] holds what follows for every
//! block. No operation panics: a driver that breaks the protocol is told so
//! by a [`protocol::ProtocolViolation`].
//!
//! The [`gpio`] module holds the pin mode typestates of the GPIO peripheral.

#![allow(unused_imports)]

pub mod block;
pub mod coroutine;
pub mod forward;
pub mod future;
pub mod gpio;
pub mod laws;
pub mod protocol;
pub mod sink;
pub mod stream;
