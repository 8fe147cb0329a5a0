//! Cooperative tasks that exchange messages and call each other through a host.
//!
//! A task runs in a memory of its own and reaches the outside only through functions of its host.
//! The host schedules one task at a time, asks it to give control back, passes messages between
//! tasks, and has one task answer the calls of another.
//!
//! - [`scale`]: the wire format of the values that cross the boundary between task and host.
//! - [`memory`]: the memory of a task as the host reads and writes it.
//! - [`messaging`]: messages, and what a task does with the buffers that it passes to the host.
//! - [`task`]: what the main loop of a task reacts to and how, and the calls that a task answers.
//! - [`text`]: the lines that a task prints.
//! - [`run`]: runs of machines that are told one event after the other.
//! - [`service`]: the service cycle in which the host drives a task.
//! - [`host`]: the functions that the host provides to a task.
//! - [`executor`]: creating and scheduling tasks, and passing messages between them.
//! - [`serving`]: having one task answer the calls of another.
//! - [`laws`]: what holds across the boundary.
//! - [`outcomes`]: what each function returns, in terms of bytes, numbers and texts.
pub mod executor;
pub mod host;
pub mod laws;
pub mod memory;
pub mod messaging;
pub mod outcomes;
pub mod run;
pub mod scale;
pub mod service;
pub mod serving;
pub mod task;
pub mod text;
