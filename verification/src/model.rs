//! Data carried through a capture session: monitor geometry, raw
//! framebuffers handed in by the capture adapter, and the encoded
//! screenshots the session publishes.

use vstd::prelude::*;

verus! {

/// A pointer position in virtual-desktop coordinates.
#[derive(Clone, Copy, PartialEq, Eq, Structural)]
pub struct Point {
    pub x: i32,
    pub y: i32,
}

/// Identity and geometry of one connected monitor, as reported by the
/// capture adapter.  `scale` is the display scale factor in hundredths
/// (a factor of 1.5 is stored as 150), so that geometry stays in plain
/// integers.
pub struct Display {
    pub id: u32,
    pub name: String,
    pub x: i32,
    pub y: i32,
    pub width: u32,
    pub height: u32,
    pub scale: u32,
}

/// Mathematical image of a `Display`.
#[verifier::ext_equal]
pub struct DisplayView {
    pub id: u32,
    pub name: Seq<char>,
    pub x: i32,
    pub y: i32,
    pub width: u32,
    pub height: u32,
    pub scale: u32,
}

impl View for Display {
    type V = DisplayView;

    open spec fn view(&self) -> DisplayView {
        DisplayView {
            id: self.id,
            name: self.name@,
            x: self.x,
            y: self.y,
            width: self.width,
            height: self.height,
            scale: self.scale,
        }
    }
}

impl Clone for Display {
    fn clone(&self) -> (r: Self)
        ensures
            r@ == self@,
    {
        Display {
            id: self.id,
            name: self.name.clone(),
            x: self.x,
            y: self.y,
            width: self.width,
            height: self.height,
            scale: self.scale,
        }
    }
}

/// One captured monitor image, immutable once constructed: the monitor's
/// identity and geometry at capture time, the encoded pixels in a
/// text-safe form, and the format tag the encoding used.
pub struct Screenshot {
    pub id: u32,
    pub name: String,
    pub x: i32,
    pub y: i32,
    pub width: u32,
    pub height: u32,
    /// Base64 of the encoded image bytes.
    pub image_data: String,
    /// `"jpeg"` or `"png"`.
    pub format: String,
    /// Display scale factor in hundredths, as in [`Display`].
    pub scale: u32,
}

/// Mathematical image of a `Screenshot`.
#[verifier::ext_equal]
pub struct ScreenshotView {
    pub id: u32,
    pub name: Seq<char>,
    pub x: i32,
    pub y: i32,
    pub width: u32,
    pub height: u32,
    pub image_data: Seq<char>,
    pub format: Seq<char>,
    pub scale: u32,
}

impl View for Screenshot {
    type V = ScreenshotView;

    open spec fn view(&self) -> ScreenshotView {
        ScreenshotView {
            id: self.id,
            name: self.name@,
            x: self.x,
            y: self.y,
            width: self.width,
            height: self.height,
            image_data: self.image_data@,
            format: self.format@,
            scale: self.scale,
        }
    }
}

impl Clone for Screenshot {
    fn clone(&self) -> (r: Self)
        ensures
            r@ == self@,
    {
        Screenshot {
            id: self.id,
            name: self.name.clone(),
            x: self.x,
            y: self.y,
            width: self.width,
            height: self.height,
            image_data: self.image_data.clone(),
            format: self.format.clone(),
            scale: self.scale,
        }
    }
}

/// One monitor's raw framebuffer: tightly packed 8-bit RGBA rows, as the
/// capture adapter returns them.
pub struct Frame {
    pub width: u32,
    pub height: u32,
    pub rgba: Vec<u8>,
}

/// Mathematical image of a `Frame`.
#[verifier::ext_equal]
pub struct FrameView {
    pub width: u32,
    pub height: u32,
    pub rgba: Seq<u8>,
}

impl View for Frame {
    type V = FrameView;

    open spec fn view(&self) -> FrameView {
        FrameView { width: self.width, height: self.height, rgba: self.rgba@ }
    }
}

/// The capture adapter's outcome for one monitor: its geometry, and the
/// raw framebuffer, or `None` when the OS-level capture call failed.
pub struct MonitorCapture {
    pub display: Display,
    pub frame: Option<Frame>,
}

/// Mathematical image of a `MonitorCapture`.
#[verifier::ext_equal]
pub struct MonitorCaptureView {
    pub display: DisplayView,
    pub frame: Option<FrameView>,
}

impl View for MonitorCapture {
    type V = MonitorCaptureView;

    open spec fn view(&self) -> MonitorCaptureView {
        MonitorCaptureView {
            display: self.display@,
            frame: match self.frame {
                Some(f) => Some(f@),
                None => None,
            },
        }
    }
}

} // verus!
