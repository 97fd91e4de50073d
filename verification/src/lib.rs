//! Screenshot session manager: the state machine behind a multi-monitor
//! screen-capture overlay tool.
//!
//! On a capture trigger the session guards against overlapping captures,
//! encodes one frozen image per monitor, publishes each image under a
//! deterministic overlay-surface key, and reclaims the entry when that
//! surface is destroyed.  The OS-level pixel grab, the windowing runtime
//! and the event transport live outside this crate; the session logic,
//! its invariants and the encoding pipeline are verified here.

pub mod capture;
pub mod codec;
pub mod error;
pub mod events;
pub mod keys;
pub mod laws;
pub mod model;
pub mod state;
