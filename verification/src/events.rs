//! Outbound events: what the session broadcasts to the UI layer.
//!
//! The transport itself (command invocation, event emission) lives
//! outside this crate; here each event's identity and payload are
//! fixed, so the carrier only ever forwards a ready-made pair.

use vstd::prelude::*;

use crate::model::Point;

verus! {

/// One event broadcast to the UI layer through the event gateway.
pub enum UiEvent {
    /// A region selection began.
    ClipStart,
    /// A region selection ended on the given display.
    ClipEnd { display_id: u32 },
    /// The selection was cancelled.  A UI-level signal only: it does
    /// not cancel an in-flight capture, which always runs to
    /// completion or failure.
    ClipCancel,
    /// The pointer moved.
    MouseMove { point: Point },
}

impl UiEvent {
    /// The transport name under which the event is broadcast.
    pub fn event_name(&self) -> (r: String)
        ensures
            self is ClipStart ==> r@ == "clip-start"@,
            self is ClipEnd ==> r@ == "clip-end"@,
            self is ClipCancel ==> r@ == "clip-cancel"@,
            self is MouseMove ==> r@ == "mouse-move"@,
    {
        match self {
            UiEvent::ClipStart => "clip-start".to_owned(),
            UiEvent::ClipEnd { .. } => "clip-end".to_owned(),
            UiEvent::ClipCancel => "clip-cancel".to_owned(),
            UiEvent::MouseMove { .. } => "mouse-move".to_owned(),
        }
    }
}

/// The broadcast a `clip_start` command sends.
pub fn clip_start() -> (r: UiEvent)
    ensures
        r is ClipStart,
{
    UiEvent::ClipStart
}

/// The broadcast a `clip_end` command sends: it carries the display the
/// selection ended on.
pub fn clip_end(display_id: u32) -> (r: UiEvent)
    ensures
        r == (UiEvent::ClipEnd { display_id }),
{
    UiEvent::ClipEnd { display_id }
}

/// The broadcast a `clip_cancel` command sends.
pub fn clip_cancel() -> (r: UiEvent)
    ensures
        r is ClipCancel,
{
    UiEvent::ClipCancel
}

/// The broadcast one pointer movement sends.
pub fn mouse_move(point: Point) -> (r: UiEvent)
    ensures
        r == (UiEvent::MouseMove { point }),
{
    UiEvent::MouseMove { point }
}

} // verus!
