//! Build orchestration for native projects, with its decisions stated as
//! contracts and proved.
//!
//! The library decides; the caller does the input and output. A pipeline
//! hands out one [`messages::Request`] at a time, the caller performs it and
//! hands back the [`messages::Event`] that answers it, and the pipeline says
//! what the observer should hear.
//!
//! - [`environment`], [`env_setup`]: the environment of a child process and
//!   how it is built for each kind of build.
//! - [`process`]: how raw output becomes log text and how an exit becomes a
//!   result.
//! - [`compiler`], [`artifacts`]: tags, quoting, build-system selection,
//!   directory layout and artifact discovery.
//! - [`sync`], [`pipeline`], [`job`], [`deps`]: the state machines of source
//!   synchronisation, of one build, of a whole task and of the dependency
//!   check, each with the laws that hold of every run.
//! - [`github`], [`settings`], [`ui`]: release lists, parallelism and the
//!   observer's state.
//! - [`errors`], [`messages`], [`text`]: what the others share.

pub mod artifacts;
pub mod compiler;
pub mod deps;
pub mod env_setup;
pub mod environment;
pub mod errors;
pub mod github;
pub mod job;
pub mod messages;
pub mod pipeline;
pub mod process;
pub mod settings;
pub mod sync;
pub mod text;
pub mod ui;
