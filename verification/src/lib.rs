//! The logic of a speech transcription element.
//!
//! The element sends audio to a Vosk server and gets back words with their
//! times. It turns them into a stream of text buffers and gaps that runs behind
//! the audio by a fixed latency.
//!
//! - [`transcriber`]: the element, its settings and its state
//! - [`schedule`]: when words are pushed, and how the time between them is
//!   filled
//! - [`packets`]: how audio is cut into messages for the server
//! - [`relay`]: how outputs and messages are handed out until one fails
//! - [`control`]: events, queries, state changes and the reception of messages
//! - [`laws`]: what holds of the element as a whole
//! - [`duties`]: what each operation owes its caller
//!
//! All times are in nanoseconds.
pub mod control;
pub mod duties;
pub mod laws;
pub mod packets;
pub mod relay;
pub mod schedule;
pub mod settings;
pub mod state;
pub mod time;
pub mod transcriber;
pub mod vosk_client;
