//! Bootstrap driver for a bytecode runtime.
//!
//! Given a classpath and the name of an entry class, the driver finds the
//! compiled classes that the classpath holds, has each of them parsed and
//! registered in a class repository, resolves the entry method and has it
//! executed. The driver performs no input or output of its own: it is a state
//! machine that asks its environment for one thing at a time and decides, from
//! each answer, what to ask next. Whoever runs it starts with
//! [`Response::Ready`](protocol::Response::Ready), carries out each
//! [`Request`](protocol::Request) that [`Driver::step`](driver::Driver::step)
//! returns, and hands back the outcome, until the request is to report the
//! run's result or its failure.
//!
//! A classpath is an archive or a directory tree. Of an archive, every entry
//! whose name ends with `.class` is registered under its full name within the
//! archive. Of a directory tree, every file whose name ends with `.class` is
//! registered under the stem of its base name, wherever in the tree it lies.
//! Without a classpath the entry class is read from a file of its own.
//!
//! - [`names`]: class-file names, file stems and the entry method key.
//! - [`failure`]: the fatal errors of a run and their messages.
//! - [`classpath`]: what a classpath denotes.
//! - [`discovery`]: what the scanners take for a class, and under which name.
//! - [`registry`]: a last-write-wins table of classes by logical name.
//! - [`protocol`]: what the driver asks, and what it is answered.
//! - [`driver`]: the state machine itself.
//! - [`run`]: whole runs of the driver.
//! - [`laws`]: what holds of every run of the driver.
//! - [`tree`]: a directory tree, its walk, and what a run registers of it.

pub mod names;
pub mod failure;
pub mod classpath;
pub mod discovery;
pub mod registry;
pub mod protocol;
pub mod driver;
pub mod run;
pub mod laws;
pub mod tree;
