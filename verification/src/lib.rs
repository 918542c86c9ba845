//! Sans-I/O core of a realtime speech-to-text streaming client.
//!
//! The crate holds the wire protocol and the session state machine of a client
//! that streams 16-bit PCM audio to a recognition service and receives
//! incremental transcripts. It performs no I/O itself: every operation hands
//! back the frame to transmit, and inbound frames are fed in as events.
//!
//! - [`session`]: the session controller and its mathematical model.
//! - [`uplink`]: the handshake, audio frames and the stop message.
//! - [`downlink`]: decoding of server messages.
//! - [`guarantees`]: what holds of every session, proved over the model.
//! - [`batch`] and [`wav`]: the request and the reply of the batch path, and
//!   the container its recording travels in.
//! - [`json`]: what is taken from `serde_json`.

pub mod batch;
pub mod downlink;
pub mod guarantees;
pub mod json;
pub mod session;
pub mod uplink;
pub mod wav;
pub mod wire;

pub use session::{Inbound, Polled, RealtimeClient, SessionState};
pub use wire::{Frame, ServerMsg, SessionError, StartCfg};
