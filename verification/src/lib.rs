//! Automated repair of a single source file: run it, read the failure, ask a
//! language model for a line-oriented patch, apply the patch, run again.
//!
//! This crate holds the decisions of that cycle: the patch format and its
//! applier, the conversation log, the classification of a run and the state
//! machine that ties them together. Processes, files and the network are the
//! caller's business; the library takes and returns plain values.
//!
//! A caller drives a run like this:
//!
//! ```text
//! let mut machine = RepairLoop::new(language, source, limit);
//! let mut event = Event::ProbeFinished(run the program);
//! while let Some(command) = machine.step(event) {
//!     event = match command {
//!         Command::RunProbe => Event::ProbeFinished(run the program),
//!         Command::Proceed => Event::Proceed,
//!         Command::RequestPatch(messages) => Event::ReplyArrived(send the messages),
//!         Command::ApplyPatch(change) => Event::PatchSettled(edit the file),
//!         Command::Stop => break,
//!     };
//! }
//! ```
//!
//! - [`patch`]: the patch as typed values.
//! - [`parse`]: reading a patch out of the model's reply.
//! - [`order`]: the order in which changes are applied.
//! - [`apply`]: applying changes to the lines of a file.
//! - [`lines`]: a file's text as lines, and back.
//! - [`probe`]: what a run of the program amounts to.
//! - [`chat`]: the dialogue with the model.
//! - [`repair`]: the loop itself.
//! - [`json`]: the calls into `serde_json`.

pub mod apply;
pub mod chat;
pub mod error;
pub mod json;
pub mod lines;
pub mod order;
pub mod parse;
pub mod patch;
pub mod probe;
pub mod repair;
pub mod text;

pub use chat::OpenAIChat;
pub use error::FixError;
