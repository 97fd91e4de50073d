//! Capture orchestration: one attempt from accepted trigger to
//! published images.
//!
//! The capture adapter hands in one `MonitorCapture` per monitor, in
//! enumeration order.  The attempt encodes every monitor with the
//! format snapshotted at its start; the first missing frame,
//! unsupported format or refused encode aborts the whole attempt with
//! no partial publication, and the outcome — success and error variant
//! alike — is determined exactly by the input.  On success each image
//! is published under `screenshot_overlay_<index>`, and the debounce
//! guard is released on success and failure alike.

use vstd::prelude::*;

use crate::codec::{encode_frame, encoded_image, frame_encodes};
use crate::error::SessionError;
use crate::keys::{surface_key, surface_key_for};
use crate::model::{MonitorCapture, MonitorCaptureView, Screenshot, ScreenshotView};
use crate::state::{format_is_supported, AppState};

verus! {

/// The screenshot one successfully captured monitor yields: geometry
/// and identity from the monitor, pixel dimensions from the captured
/// frame, image data encoded with the attempt's format.
pub open spec fn expected_screenshot(c: MonitorCaptureView, format: Seq<char>) -> ScreenshotView
    recommends
        c.frame is Some,
        format_is_supported(format),
{
    ScreenshotView {
        id: c.display.id,
        name: c.display.name,
        x: c.display.x,
        y: c.display.y,
        width: c.frame->Some_0.width,
        height: c.frame->Some_0.height,
        image_data: encoded_image(c.frame->Some_0, format),
        format: format,
        scale: c.display.scale,
    }
}

/// The screenshots of a fully successful attempt, in capture order.
pub open spec fn expected_screenshots(shots: Seq<MonitorCapture>, format: Seq<char>) -> Seq<
    ScreenshotView,
> {
    Seq::new(shots.len(), |i: int| expected_screenshot(shots[i]@, format))
}

/// The failure one monitor contributes, if any: the OS grab delivered
/// no frame, the format is unsupported, or the encode of its frame
/// does not go through.
pub open spec fn monitor_error(c: MonitorCaptureView, format: Seq<char>) -> Option<SessionError> {
    if c.frame is None {
        Some(SessionError::CaptureFailed)
    } else if !format_is_supported(format) {
        Some(SessionError::UnsupportedFormat)
    } else if !frame_encodes(c.frame->Some_0, format) {
        Some(SessionError::EncodeFailed)
    } else {
        None
    }
}

/// The error of the first failing monitor in capture order, or `None`
/// when every monitor goes through.
pub open spec fn first_error(shots: Seq<MonitorCapture>, format: Seq<char>) -> Option<SessionError>
    decreases shots.len(),
{
    if shots.len() == 0 {
        None
    } else if monitor_error(shots[0]@, format) is Some {
        monitor_error(shots[0]@, format)
    } else {
        first_error(shots.subrange(1, shots.len() as int), format)
    }
}

/// When the first `i` monitors contribute no error, the first error of
/// the whole pass is the first error of the rest.
proof fn lemma_first_error_skip(shots: Seq<MonitorCapture>, format: Seq<char>, i: int)
    requires
        0 <= i <= shots.len(),
        forall|j: int| 0 <= j < i ==> monitor_error(shots[j]@, format) is None,
    ensures
        first_error(shots, format) == first_error(
            shots.subrange(i, shots.len() as int),
            format,
        ),
    decreases i,
{
    if i == 0 {
        assert(shots.subrange(0, shots.len() as int) =~= shots);
    } else {
        let tail = shots.subrange(1, shots.len() as int);
        assert(monitor_error(shots[0]@, format) is None);
        assert(first_error(shots, format) == first_error(tail, format));
        assert forall|j: int| 0 <= j < i - 1 implies monitor_error(tail[j]@, format) is None by {
            assert(tail[j] == shots[j + 1]);
            assert(monitor_error(shots[j + 1]@, format) is None);
        }
        lemma_first_error_skip(tail, format, i - 1);
        assert(tail.subrange(i - 1, tail.len() as int) =~= shots.subrange(
            i,
            shots.len() as int,
        ));
    }
}

/// Everything the outcome of one capture-and-encode pass satisfies:
/// it succeeds exactly when no monitor fails, a success carries, in
/// capture order, exactly the expected screenshot of every monitor,
/// and a failure reports the first failing monitor's error.
pub open spec fn capture_attempt_post(
    shots: Seq<MonitorCapture>,
    format: Seq<char>,
    r: Result<Vec<Screenshot>, SessionError>,
) -> bool {
    &&& (r is Ok <==> first_error(shots, format) is None)
    &&& (r matches Ok(v) ==> v@.map_values(|s: Screenshot| s@) == expected_screenshots(
        shots,
        format,
    ))
    &&& (r matches Err(e) ==> Some(e) == first_error(shots, format))
}

/// Captures-and-encodes one pass over every monitor, in enumeration
/// order: the raw frame of each monitor is encoded with `format`, and
/// the first missing frame, unsupported format or refused encode
/// aborts the whole pass with that monitor's error.
pub fn capture_all_screens(shots: &Vec<MonitorCapture>, format: &String) -> (r: Result<
    Vec<Screenshot>,
    SessionError,
>)
    ensures
        capture_attempt_post(shots@, format@, r),
{
    let n = shots.len();
    let mut result: Vec<Screenshot> = Vec::new();
    let mut i: usize = 0;
    while i < n
        invariant
            i <= n,
            n == shots@.len(),
            result@.len() == i,
            forall|j: int| 0 <= j < i ==> monitor_error(shots@[j]@, format@) is None,
            forall|j: int|
                0 <= j < i ==> result@[j]@ == expected_screenshot(shots@[j]@, format@),
        decreases n - i,
    {
        proof {
            lemma_first_error_skip(shots@, format@, i as int);
            assert(shots@.subrange(i as int, n as int)[0] == shots@[i as int]);
        }
        let shot = &shots[i];
        let frame = match &shot.frame {
            Some(f) => f,
            None => {
                return Err(SessionError::CaptureFailed);
            },
        };
        let data = match encode_frame(frame, format) {
            Ok(d) => d,
            Err(e) => {
                return Err(e);
            },
        };
        result.push(
            Screenshot {
                id: shot.display.id,
                name: shot.display.name.clone(),
                x: shot.display.x,
                y: shot.display.y,
                width: frame.width,
                height: frame.height,
                image_data: data,
                format: format.clone(),
                scale: shot.display.scale,
            },
        );
        i += 1;
    }
    proof {
        lemma_first_error_skip(shots@, format@, n as int);
        assert(shots@.subrange(n as int, n as int) =~= Seq::<MonitorCapture>::empty());
        assert(result@.map_values(|s: Screenshot| s@) =~= expected_screenshots(shots@, format@));
    }
    Ok(result)
}

/// The published mapping after a sequence of images is inserted in
/// order, image `i` under `screenshot_overlay_<i>`.
pub open spec fn published_views(
    m: Map<Seq<char>, ScreenshotView>,
    imgs: Seq<ScreenshotView>,
) -> Map<Seq<char>, ScreenshotView>
    decreases imgs.len(),
{
    if imgs.len() == 0 {
        m
    } else {
        published_views(m, imgs.drop_last()).insert(
            surface_key((imgs.len() - 1) as nat),
            imgs.last(),
        )
    }
}

/// The published mapping after the images of a successful attempt are
/// inserted in capture order, each under its surface key.
pub open spec fn published(
    m: Map<Seq<char>, ScreenshotView>,
    shots: Seq<MonitorCapture>,
    format: Seq<char>,
) -> Map<Seq<char>, ScreenshotView> {
    published_views(m, expected_screenshots(shots, format))
}

impl AppState {
    /// Freezes all screens right now: encodes the handed-in captures
    /// with the current sticky format and returns them directly to the
    /// caller.  A read path: it touches neither the published images
    /// nor the debounce guard, and creates no surfaces.
    pub fn freeze_screens(&self, shots: &Vec<MonitorCapture>) -> (r: Result<
        Vec<Screenshot>,
        SessionError,
    >)
        requires
            self.wf(),
        ensures
            capture_attempt_post(shots@, self@.format, r),
    {
        capture_all_screens(shots, &self.screenshot_format)
    }

    /// Publishes the images of one successful attempt — image `i`
    /// under `screenshot_overlay_<i>` — and releases the debounce
    /// guard.  Returns the surface keys in capture order.  This is the
    /// short write of an attempt's tail: a caller holds its state lock
    /// only across this, never across capture or encoding.
    pub fn publish_capture(&mut self, images: &Vec<Screenshot>) -> (labels: Vec<String>)
        requires
            old(self).wf(),
        ensures
            final(self).wf(),
            !final(self)@.capturing,
            final(self)@.displays == old(self)@.displays,
            final(self)@.format == old(self)@.format,
            labels@.len() == images@.len(),
            forall|i: int| 0 <= i < labels@.len() ==> labels@[i]@ == surface_key(i as nat),
            final(self)@.screenshots == published_views(
                old(self)@.screenshots,
                images@.map_values(|s: Screenshot| s@),
            ),
    {
        let ghost m0 = self@.screenshots;
        let ghost v0 = self@;
        let ghost mv = images@.map_values(|s: Screenshot| s@);
        let n = images.len();
        let mut labels: Vec<String> = Vec::new();
        let mut idx: usize = 0;
        while idx < n
            invariant
                idx <= n,
                n == images@.len(),
                mv == images@.map_values(|s: Screenshot| s@),
                labels@.len() == idx,
                forall|i: int| 0 <= i < idx ==> labels@[i]@ == surface_key(i as nat),
                self.wf(),
                self@.capturing == v0.capturing,
                self@.displays == v0.displays,
                self@.format == v0.format,
                self@.screenshots == published_views(m0, mv.take(idx as int)),
            decreases n - idx,
        {
            let key = surface_key_for(idx);
            labels.push(key.clone());
            let image = images[idx].clone();
            proof {
                let pre = mv.take(idx as int);
                let cur = mv.take(idx as int + 1);
                assert(cur.drop_last() =~= pre);
                assert(cur.last() == mv[idx as int]);
                assert(mv[idx as int] == images@[idx as int]@);
            }
            self.publish(key, image);
            idx += 1;
        }
        proof {
            assert(mv.take(n as int) =~= mv);
        }
        self.end_capture();
        labels
    }

    /// Runs one accepted capture attempt to completion: snapshots the
    /// sticky format, encodes every monitor, publishes each image under
    /// its surface key, and releases the debounce guard on success and
    /// failure alike.  This bundles the whole tail into one call, for a
    /// state with a single owner; a caller sharing the state behind a
    /// lock should instead snapshot the format, run
    /// `capture_all_screens` without the lock, and take the lock only
    /// for `publish_capture` (or `end_capture` on failure), so queries
    /// never wait behind an encode.  The outcome is exactly the pass's `first_error`;
    /// on failure nothing is published.  On success the returned labels
    /// name, in capture order, the overlay surfaces the caller must
    /// create and whose destruction it must route back to `evict`.
    pub fn finish_capture(&mut self, shots: &Vec<MonitorCapture>) -> (r: Result<
        Vec<String>,
        SessionError,
    >)
        requires
            old(self).wf(),
        ensures
            final(self).wf(),
            !final(self)@.capturing,
            final(self)@.displays == old(self)@.displays,
            final(self)@.format == old(self)@.format,
            r is Ok <==> first_error(shots@, old(self)@.format) is None,
            r matches Err(e) ==> Some(e) == first_error(shots@, old(self)@.format)
                && final(self)@.screenshots == old(self)@.screenshots,
            r matches Ok(labels) ==> {
                &&& labels@.len() == shots@.len()
                &&& forall|i: int|
                    0 <= i < labels@.len() ==> labels@[i]@ == surface_key(i as nat)
                &&& final(self)@.screenshots == published(
                    old(self)@.screenshots,
                    shots@,
                    old(self)@.format,
                )
            },
    {
        let fmt = self.get_screenshot_format();
        match capture_all_screens(shots, &fmt) {
            Err(e) => {
                self.end_capture();
                Err(e)
            },
            Ok(images) => {
                let labels = self.publish_capture(&images);
                Ok(labels)
            },
        }
    }
}

} // verus!
