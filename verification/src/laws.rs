//! The session's general laws, stated once over the mathematical model
//! and proved for every input.
//!
//! Each law speaks through the same spec functions the executable
//! contracts use: `guard_step` is what `try_begin_capture` leaves
//! behind, `published` is what a successful `finish_capture` makes of
//! the map, and `Map::remove` is what `evict` does to it.

use vstd::prelude::*;

use crate::capture::{expected_screenshot, expected_screenshots, published, published_views};
use crate::keys::{lemma_surface_key_injective, surface_key};
use crate::model::{MonitorCapture, ScreenshotView};
use crate::state::{guard_step, StateView};

verus! {

/// What `n` consecutive `try_begin_capture` calls report, starting from
/// state `s` with no intervening `end_capture`: each call reports
/// whether it accepted the attempt and leaves the guard set, exactly as
/// `AppState::try_begin_capture`'s contract states.
pub open spec fn guard_reports(s: StateView, n: nat) -> Seq<bool>
    decreases n,
{
    if n == 0 {
        Seq::empty()
    } else {
        seq![!s.capturing] + guard_reports(guard_step(s), (n - 1) as nat)
    }
}

proof fn lemma_guard_reports_len(s: StateView, n: nat)
    ensures
        guard_reports(s, n).len() == n,
    decreases n,
{
    if n > 0 {
        lemma_guard_reports_len(guard_step(s), (n - 1) as nat);
    }
}

proof fn lemma_guard_reports_in_flight(s: StateView, n: nat)
    requires
        s.capturing,
    ensures
        forall|i: int| 0 <= i < guard_reports(s, n).len() ==> !guard_reports(s, n)[i],
    decreases n,
{
    if n > 0 {
        lemma_guard_reports_in_flight(guard_step(s), (n - 1) as nat);
        let tail = guard_reports(guard_step(s), (n - 1) as nat);
        assert(guard_reports(s, n)[0] == !s.capturing);
        assert(forall|i: int| 1 <= i < guard_reports(s, n).len() ==> guard_reports(s, n)[i]
            == tail[i - 1]);
    }
}

/// Law (debounce): among any run of consecutive capture triggers, at
/// most one is accepted — none when a capture was already in flight,
/// and only the first one otherwise.
pub proof fn lemma_debounce_guard(s: StateView, n: nat)
    ensures
        guard_reports(s, n).len() == n,
        s.capturing ==> forall|i: int| 0 <= i < n ==> !guard_reports(s, n)[i],
        !s.capturing && n > 0 ==> guard_reports(s, n)[0],
        !s.capturing ==> forall|i: int| 1 <= i < n ==> !guard_reports(s, n)[i],
{
    lemma_guard_reports_len(s, n);
    if s.capturing {
        lemma_guard_reports_in_flight(s, n);
    } else if n > 0 {
        let tail = guard_reports(guard_step(s), (n - 1) as nat);
        lemma_guard_reports_len(guard_step(s), (n - 1) as nat);
        lemma_guard_reports_in_flight(guard_step(s), (n - 1) as nat);
        assert(forall|i: int| 1 <= i < n ==> guard_reports(s, n)[i] == tail[i - 1]);
    }
}

/// Law (complete publication, image level): publishing a run of `n`
/// images into an empty map yields exactly `n` entries, image `i`
/// under `screenshot_overlay_<i>`.
pub proof fn lemma_publish_views_exactly(imgs: Seq<ScreenshotView>)
    ensures
        published_views(Map::empty(), imgs).dom().finite(),
        published_views(Map::empty(), imgs).dom().len() == imgs.len(),
        forall|i: int|
            0 <= i < imgs.len() ==> published_views(Map::empty(), imgs).contains_key(
                #[trigger] surface_key(i as nat),
            ),
        forall|i: int|
            0 <= i < imgs.len() ==> published_views(Map::empty(), imgs)[#[trigger] surface_key(
                i as nat,
            )] == imgs[i],
        forall|k: Seq<char>|
            published_views(Map::empty(), imgs).contains_key(k) ==> exists|i: int|
                0 <= i < imgs.len() && k == #[trigger] surface_key(i as nat),
    decreases imgs.len(),
{
    let m = published_views(Map::<Seq<char>, ScreenshotView>::empty(), imgs);
    if imgs.len() == 0 {
        assert(m.dom() =~= Set::<Seq<char>>::empty());
    } else {
        let pre = imgs.drop_last();
        let n1 = (imgs.len() - 1) as nat;
        let mpre = published_views(Map::<Seq<char>, ScreenshotView>::empty(), pre);
        lemma_publish_views_exactly(pre);
        assert(forall|i: int| 0 <= i < pre.len() ==> pre[i] == imgs[i]);
        assert(m == mpre.insert(surface_key(n1), imgs.last()));
        assert forall|i: int| 0 <= i < pre.len() implies #[trigger] surface_key(i as nat)
            != surface_key(n1) by {
            if surface_key(i as nat) == surface_key(n1) {
                lemma_surface_key_injective(i as nat, n1);
            }
        }
        assert(!mpre.contains_key(surface_key(n1))) by {
            if mpre.contains_key(surface_key(n1)) {
                let i = choose|i: int|
                    0 <= i < pre.len() && surface_key(n1) == #[trigger] surface_key(i as nat);
            }
        }
        vstd::set::axiom_set_insert_finite(mpre.dom(), surface_key(n1));
        vstd::set::axiom_set_insert_len(mpre.dom(), surface_key(n1));
        assert(m.dom() =~= mpre.dom().insert(surface_key(n1)));
        assert(imgs.last() == imgs[imgs.len() - 1]);
        assert forall|k: Seq<char>| m.contains_key(k) implies exists|i: int|
            0 <= i < imgs.len() && k == #[trigger] surface_key(i as nat) by {
            if k == surface_key(n1) {
                assert(imgs.len() - 1 < imgs.len() && k == surface_key((imgs.len() - 1) as nat));
            } else {
                let i = choose|i: int|
                    0 <= i < pre.len() && k == #[trigger] surface_key(i as nat);
                assert(0 <= i < imgs.len() && k == surface_key(i as nat));
            }
        }
    }
}

/// Law (complete publication): a successful capture of `n` monitors
/// starting from an empty published map yields exactly `n` entries,
/// keyed `screenshot_overlay_0` through `screenshot_overlay_<n-1>`,
/// each carrying its monitor's screenshot encoded with the format the
/// attempt snapshotted.
pub proof fn lemma_capture_publishes_exactly(shots: Seq<MonitorCapture>, format: Seq<char>)
    ensures
        published(Map::empty(), shots, format).dom().finite(),
        published(Map::empty(), shots, format).dom().len() == shots.len(),
        forall|i: int|
            0 <= i < shots.len() ==> published(Map::empty(), shots, format).contains_key(
                #[trigger] surface_key(i as nat),
            ),
        forall|i: int|
            0 <= i < shots.len() ==> published(Map::empty(), shots, format)[#[trigger] surface_key(
                i as nat,
            )] == expected_screenshot(shots[i]@, format),
        forall|k: Seq<char>|
            published(Map::empty(), shots, format).contains_key(k) ==> exists|i: int|
                0 <= i < shots.len() && k == #[trigger] surface_key(i as nat),
{
    let imgs = expected_screenshots(shots, format);
    lemma_publish_views_exactly(imgs);
    assert(imgs.len() == shots.len());
    assert(forall|i: int| 0 <= i < shots.len() ==> imgs[i] == expected_screenshot(shots[i]@, format));
}

/// Law (idempotent eviction): evicting the same key twice is the same
/// as evicting it once, evicting a key that was never published leaves
/// the map as it was, and eviction never touches any other entry.
pub proof fn lemma_evict_idempotent(m: Map<Seq<char>, ScreenshotView>, k: Seq<char>)
    ensures
        m.remove(k).remove(k) == m.remove(k),
        !m.contains_key(k) ==> m.remove(k) == m,
        forall|k2: Seq<char>|
            k2 != k && m.contains_key(k2) ==> m.remove(k).contains_key(k2) && m.remove(k)[k2]
                == m[k2],
{
    assert(m.remove(k).remove(k) =~= m.remove(k));
    if !m.contains_key(k) {
        assert(m.remove(k) =~= m);
    }
}

} // verus!
