//! The session state: the one piece of shared mutable data.
//!
//! It holds the published images keyed by overlay surface, the cached
//! display inventory, the debounce guard against overlapping captures,
//! and the sticky image format.  Callers are expected to serialise the
//! operations below behind one lock; each operation is a small atomic
//! step whose effect on the whole state is stated in its contract.

use vstd::prelude::*;
use vstd::pervasive::VecAdditionalExecFns;

use crate::error::SessionError;
use crate::model::{Display, DisplayView, Screenshot, ScreenshotView};

verus! {

/// `"jpeg"` and `"png"` are the two supported encodings.
pub open spec fn format_is_supported(f: Seq<char>) -> bool {
    f == "jpeg"@ || f == "png"@
}

/// Mathematical image of the session state.
#[verifier::ext_equal]
pub struct StateView {
    /// The published images, keyed by overlay-surface key.
    pub screenshots: Map<Seq<char>, ScreenshotView>,
    /// The cached display inventory, in enumeration order.
    pub displays: Seq<DisplayView>,
    /// The debounce guard: true while a capture attempt is in flight.
    pub capturing: bool,
    /// The sticky format setting, `"jpeg"` or `"png"`.
    pub format: Seq<char>,
}

/// What one `try_begin_capture` call leaves behind, whether or not it
/// accepted the attempt: the guard is set either way.
pub open spec fn guard_step(s: StateView) -> StateView {
    StateView { capturing: true, ..s }
}

/// No two published entries share a key.
pub open spec fn entries_unique(s: Seq<(String, Screenshot)>) -> bool {
    forall|i: int, j: int| 0 <= i < j < s.len() ==> s[i].0@ != s[j].0@
}

/// The mapping that a sequence of published entries denotes.
pub open spec fn entries_map(s: Seq<(String, Screenshot)>) -> Map<Seq<char>, ScreenshotView>
    decreases s.len(),
{
    if s.len() == 0 {
        Map::<Seq<char>, ScreenshotView>::empty()
    } else {
        entries_map(s.drop_last()).insert(s.last().0@, s.last().1@)
    }
}

/// A key is in the denoted mapping exactly when some entry carries it.
proof fn lemma_entries_map_dom(s: Seq<(String, Screenshot)>, k: Seq<char>)
    ensures
        entries_map(s).contains_key(k) <==> exists|i: int| 0 <= i < s.len() && s[i].0@ == k,
    decreases s.len(),
{
    if s.len() > 0 {
        lemma_entries_map_dom(s.drop_last(), k);
        if s.last().0@ == k {
            assert(s[s.len() - 1].0@ == k);
        } else {
            if exists|i: int| 0 <= i < s.drop_last().len() && s.drop_last()[i].0@ == k {
                let i = choose|i: int| 0 <= i < s.drop_last().len() && s.drop_last()[i].0@ == k;
                assert(s[i].0@ == k);
            }
            if exists|i: int| 0 <= i < s.len() && s[i].0@ == k {
                let i = choose|i: int| 0 <= i < s.len() && s[i].0@ == k;
                assert(s.drop_last()[i].0@ == k);
            }
        }
    }
}

/// Each entry of a duplicate-free sequence is found in the mapping.
proof fn lemma_entries_map_index(s: Seq<(String, Screenshot)>, i: int)
    requires
        entries_unique(s),
        0 <= i < s.len(),
    ensures
        entries_map(s).contains_key(s[i].0@),
        entries_map(s)[s[i].0@] == s[i].1@,
    decreases s.len(),
{
    if i < s.len() - 1 {
        assert(s.drop_last()[i] == s[i]);
        assert(entries_unique(s.drop_last())) by {
            assert(forall|x: int, y: int|
                0 <= x < y < s.drop_last().len() ==> s.drop_last()[x] == s[x] && s.drop_last()[y]
                    == s[y]);
        }
        lemma_entries_map_index(s.drop_last(), i);
        assert(s[i].0@ != s.last().0@);
    }
}

/// Overwriting the entry that carries a key denotes a map insert.
proof fn lemma_entries_map_update(s: Seq<(String, Screenshot)>, i: int, e: (String, Screenshot))
    requires
        entries_unique(s),
        0 <= i < s.len(),
        s[i].0@ == e.0@,
    ensures
        entries_map(s.update(i, e)) =~= entries_map(s).insert(e.0@, e.1@),
        entries_unique(s.update(i, e)),
    decreases s.len(),
{
    let su = s.update(i, e);
    assert(entries_unique(su)) by {
        assert(forall|x: int| 0 <= x < s.len() && x != i ==> su[x] == s[x]);
    }
    if i == s.len() - 1 {
        assert(su.drop_last() =~= s.drop_last());
        assert(su.last() == e);
    } else {
        assert(su.drop_last() =~= s.drop_last().update(i, e));
        assert(su.last() == s.last());
        assert(entries_unique(s.drop_last())) by {
            assert(forall|x: int, y: int|
                0 <= x < y < s.drop_last().len() ==> s.drop_last()[x] == s[x] && s.drop_last()[y]
                    == s[y]);
        }
        assert(s.drop_last()[i] == s[i]);
        lemma_entries_map_update(s.drop_last(), i, e);
        assert(s[i].0@ != s.last().0@);
    }
}

/// Removing the entry that carries a key denotes a map remove.
proof fn lemma_entries_map_remove(s: Seq<(String, Screenshot)>, i: int)
    requires
        entries_unique(s),
        0 <= i < s.len(),
    ensures
        entries_map(s.remove(i)) =~= entries_map(s).remove(s[i].0@),
        entries_unique(s.remove(i)),
    decreases s.len(),
{
    let sr = s.remove(i);
    assert(entries_unique(sr)) by {
        assert(forall|x: int| 0 <= x < i ==> sr[x] == s[x]);
        assert(forall|x: int| i <= x < sr.len() ==> sr[x] == s[x + 1]);
    }
    assert(entries_unique(s.drop_last())) by {
        assert(forall|x: int, y: int|
            0 <= x < y < s.drop_last().len() ==> s.drop_last()[x] == s[x] && s.drop_last()[y]
                == s[y]);
    }
    if i == s.len() - 1 {
        assert(sr =~= s.drop_last());
        lemma_entries_map_dom(s.drop_last(), s[i].0@);
        assert(forall|j: int| 0 <= j < s.drop_last().len() ==> s.drop_last()[j] == s[j]);
        assert(!entries_map(s.drop_last()).contains_key(s[i].0@));
    } else {
        assert(sr.last() == s.last());
        assert(sr.drop_last() =~= s.drop_last().remove(i));
        assert(s.drop_last()[i] == s[i]);
        lemma_entries_map_remove(s.drop_last(), i);
        assert(s[i].0@ != s.last().0@);
    }
}

/// Entries with the same keys and images denote the same mapping.
proof fn lemma_entries_map_congruence(a: Seq<(String, Screenshot)>, b: Seq<(String, Screenshot)>)
    requires
        a.len() == b.len(),
        forall|i: int| 0 <= i < a.len() ==> a[i].0@ == b[i].0@ && a[i].1@ == b[i].1@,
    ensures
        entries_map(a) =~= entries_map(b),
    decreases a.len(),
{
    if a.len() > 0 {
        assert(forall|i: int|
            0 <= i < a.drop_last().len() ==> a.drop_last()[i] == a[i] && b.drop_last()[i] == b[i]);
        lemma_entries_map_congruence(a.drop_last(), b.drop_last());
        assert(a.last() == a[a.len() - 1] && b.last() == b[b.len() - 1]);
    }
}

/// The session state: published images, display inventory, the
/// capture-in-progress guard, and the sticky format.
pub struct AppState {
    /// The published images, one entry per live overlay surface.
    pub screenshots: Vec<(String, Screenshot)>,
    /// The cached display inventory.
    pub displays: Vec<Display>,
    /// True from the moment a capture attempt is accepted until that
    /// attempt finishes, on both its success and its failure path.
    pub is_screenshotting: bool,
    /// The format the next capture will encode with.
    pub screenshot_format: String,
}

impl View for AppState {
    type V = StateView;

    open spec fn view(&self) -> StateView {
        StateView {
            screenshots: entries_map(self.screenshots@),
            displays: self.displays@.map_values(|d: Display| d@),
            capturing: self.is_screenshotting,
            format: self.screenshot_format@,
        }
    }
}

/// Decides whether `f` names a supported encoding.
pub fn supported_format(f: &String) -> (r: bool)
    ensures
        r == format_is_supported(f@),
{
    let jpeg: String = "jpeg".to_owned();
    let png: String = "png".to_owned();
    *f == jpeg || *f == png
}

impl AppState {
    /// The state's internal invariant: published keys are unique and
    /// the sticky format is supported.
    pub open spec fn wf(&self) -> bool {
        entries_unique(self.screenshots@) && format_is_supported(self.screenshot_format@)
    }

    /// The startup state: nothing published, no capture in flight,
    /// format defaulted to `"jpeg"`.
    pub fn new() -> (r: AppState)
        ensures
            r.wf(),
            r@ =~= (StateView {
                screenshots: Map::empty(),
                displays: Seq::empty(),
                capturing: false,
                format: "jpeg"@,
            }),
    {
        let r = AppState {
            screenshots: Vec::new(),
            displays: Vec::new(),
            is_screenshotting: false,
            screenshot_format: "jpeg".to_owned(),
        };
        proof {
            assert(r.displays@.map_values(|d: Display| d@) =~= Seq::<DisplayView>::empty());
        }
        r
    }

    /// Finds the entry published under `key`, if any.
    fn find_index(&self, key: &String) -> (r: Option<usize>)
        ensures
            match r {
                Some(i) => i < self.screenshots@.len() && self.screenshots@[i as int].0@ == key@,
                None => forall|j: int|
                    0 <= j < self.screenshots@.len() ==> self.screenshots@[j].0@ != key@,
            },
    {
        let n = self.screenshots.len();
        let mut i: usize = 0;
        while i < n
            invariant
                i <= n,
                n == self.screenshots@.len(),
                forall|j: int| 0 <= j < i ==> self.screenshots@[j].0@ != key@,
            decreases n - i,
        {
            let entry = &self.screenshots[i];
            if entry.0 == *key {
                return Some(i);
            }
            i += 1;
        }
        None
    }

    /// The debounce guard.  Accepts the capture attempt only when no
    /// other attempt is in flight; a second trigger observed while
    /// `capturing` is true is a no-op that reports `false`.
    pub fn try_begin_capture(&mut self) -> (r: bool)
        ensures
            r == !old(self)@.capturing,
            final(self)@ == guard_step(old(self)@),
            old(self).wf() ==> final(self).wf(),
    {
        if self.is_screenshotting {
            false
        } else {
            self.is_screenshotting = true;
            true
        }
    }

    /// Ends the current capture attempt, releasing the debounce guard.
    /// Runs exactly once per attempt, on success and on failure alike.
    pub fn end_capture(&mut self)
        ensures
            final(self)@ == (StateView { capturing: false, ..old(self)@ }),
            old(self).wf() ==> final(self).wf(),
    {
        self.is_screenshotting = false;
    }

    /// True while a capture attempt is in flight.
    pub fn is_capturing(&self) -> (r: bool)
        ensures
            r == self@.capturing,
    {
        self.is_screenshotting
    }

    /// Publishes `image` under `key`, overwriting any image already
    /// published there.
    pub fn publish(&mut self, key: String, image: Screenshot)
        requires
            old(self).wf(),
        ensures
            final(self).wf(),
            final(self)@ == (StateView {
                screenshots: old(self)@.screenshots.insert(key@, image@),
                ..old(self)@
            }),
    {
        let ghost s0 = self.screenshots@;
        let r = self.find_index(&key);
        match r {
            Some(i) => {
                proof {
                    lemma_entries_map_update(s0, i as int, (key, image));
                }
                self.screenshots.set(i, (key, image));
            },
            None => {
                self.screenshots.push((key, image));
                proof {
                    let s1 = self.screenshots@;
                    assert(s1.drop_last() =~= s0);
                    assert(entries_map(s1) =~= entries_map(s0).insert(s1.last().0@, s1.last().1@));
                    assert(entries_unique(s1)) by {
                        assert(forall|x: int| 0 <= x < s0.len() ==> s1[x] == s0[x]);
                    }
                }
            },
        }
    }

    /// Removes the image published under `key`, if any; a no-op when
    /// the key was never published or was already evicted.
    pub fn evict(&mut self, key: &String)
        requires
            old(self).wf(),
        ensures
            final(self).wf(),
            final(self)@ == (StateView {
                screenshots: old(self)@.screenshots.remove(key@),
                ..old(self)@
            }),
    {
        let ghost s0 = self.screenshots@;
        let r = self.find_index(key);
        match r {
            Some(i) => {
                proof {
                    lemma_entries_map_remove(s0, i as int);
                }
                let _ = self.screenshots.remove(i);
            },
            None => {
                proof {
                    lemma_entries_map_dom(s0, key@);
                    assert(entries_map(s0).remove(key@) =~= entries_map(s0));
                }
            },
        }
    }

    /// Looks up the image published under `key`; the caller receives
    /// an independent copy.
    pub fn get(&self, key: &String) -> (r: Option<Screenshot>)
        requires
            self.wf(),
        ensures
            match r {
                Some(s) => self@.screenshots.contains_key(key@) && s@ == self@.screenshots[key@],
                None => !self@.screenshots.contains_key(key@),
            },
    {
        let r = self.find_index(key);
        proof {
            lemma_entries_map_dom(self.screenshots@, key@);
        }
        match r {
            Some(i) => {
                proof {
                    lemma_entries_map_index(self.screenshots@, i as int);
                }
                Some(self.screenshots[i].1.clone())
            },
            None => None,
        }
    }

    /// A snapshot of everything currently published: independent
    /// copies, denoting exactly the published mapping.
    pub fn get_all(&self) -> (r: Vec<(String, Screenshot)>)
        requires
            self.wf(),
        ensures
            entries_unique(r@),
            entries_map(r@) == self@.screenshots,
            r@.len() == self@.screenshots.dom().len(),
    {
        let n = self.screenshots.len();
        let mut r: Vec<(String, Screenshot)> = Vec::new();
        let mut i: usize = 0;
        while i < n
            invariant
                i <= n,
                n == self.screenshots@.len(),
                r@.len() == i,
                forall|j: int|
                    0 <= j < i ==> r@[j].0@ == self.screenshots@[j].0@ && r@[j].1@
                        == self.screenshots@[j].1@,
            decreases n - i,
        {
            let entry = &self.screenshots[i];
            r.push((entry.0.clone(), entry.1.clone()));
            i += 1;
        }
        proof {
            lemma_entries_map_congruence(r@, self.screenshots@);
            assert(entries_unique(r@));
            lemma_entries_map_card(self.screenshots@);
        }
        r
    }

    /// The current sticky format.
    pub fn get_screenshot_format(&self) -> (r: String)
        ensures
            r@ == self@.format,
    {
        self.screenshot_format.clone()
    }

    /// Commits a new sticky format when it is supported; rejects it
    /// with `InvalidFormat`, leaving the state untouched, otherwise.
    /// The change affects the next capture only: an in-flight capture
    /// already holds its own format snapshot.
    pub fn set_screenshot_format(&mut self, format: String) -> (r: Result<String, SessionError>)
        requires
            old(self).wf(),
        ensures
            final(self).wf(),
            format_is_supported(format@) ==> {
                &&& r matches Ok(f) && f@ == format@
                &&& final(self)@ == (StateView { format: format@, ..old(self)@ })
            },
            !format_is_supported(format@) ==> {
                &&& r matches Err(e) && e is InvalidFormat
                &&& final(self)@ == old(self)@
            },
    {
        if supported_format(&format) {
            let echo = format.clone();
            self.screenshot_format = format;
            Ok(echo)
        } else {
            Err(SessionError::InvalidFormat)
        }
    }

    /// Looks up the image owned by the overlay surface `window_label`;
    /// reports `NotFound`, naming the surface, when nothing is
    /// published there.
    pub fn get_screenshot_data(&self, window_label: &String) -> (r: Result<
        Screenshot,
        SessionError,
    >)
        requires
            self.wf(),
        ensures
            self@.screenshots.contains_key(window_label@) ==> (r matches Ok(s) && s@
                == self@.screenshots[window_label@]),
            !self@.screenshots.contains_key(window_label@) ==> (r matches Err(e)
                && (e matches SessionError::NotFound { window } && window@ == window_label@)),
    {
        match self.get(window_label) {
            Some(s) => Ok(s),
            None => Err(SessionError::NotFound { window: window_label.clone() }),
        }
    }

    /// A snapshot of every published image, keyed by surface.
    pub fn get_screenshots_data(&self) -> (r: Vec<(String, Screenshot)>)
        requires
            self.wf(),
        ensures
            entries_unique(r@),
            entries_map(r@) == self@.screenshots,
            r@.len() == self@.screenshots.dom().len(),
    {
        self.get_all()
    }

    /// Replaces the cached display inventory.
    pub fn set_displays(&mut self, displays: Vec<Display>)
        ensures
            final(self)@ == (StateView {
                displays: displays@.map_values(|d: Display| d@),
                ..old(self)@
            }),
            old(self).wf() ==> final(self).wf(),
    {
        self.displays = displays;
    }

    /// The cached display inventory, as independent copies.
    pub fn get_displays_data(&self) -> (r: Vec<Display>)
        ensures
            r@.map_values(|d: Display| d@) == self@.displays,
    {
        let n = self.displays.len();
        let mut r: Vec<Display> = Vec::new();
        let mut i: usize = 0;
        while i < n
            invariant
                i <= n,
                n == self.displays@.len(),
                r@.len() == i,
                forall|j: int| 0 <= j < i ==> r@[j]@ == self.displays@[j]@,
            decreases n - i,
        {
            let entry = &self.displays[i];
            r.push(entry.clone());
            i += 1;
        }
        proof {
            assert(r@.map_values(|d: Display| d@) =~= self.displays@.map_values(
                |d: Display| d@,
            ));
        }
        r
    }
}

/// A duplicate-free entry sequence has as many entries as its mapping
/// has keys.
proof fn lemma_entries_map_card(s: Seq<(String, Screenshot)>)
    requires
        entries_unique(s),
    ensures
        entries_map(s).dom().finite(),
        entries_map(s).dom().len() == s.len(),
    decreases s.len(),
{
    if s.len() == 0 {
    } else {
        assert(entries_unique(s.drop_last())) by {
            assert(forall|x: int, y: int|
                0 <= x < y < s.drop_last().len() ==> s.drop_last()[x] == s[x] && s.drop_last()[y]
                    == s[y]);
        }
        lemma_entries_map_card(s.drop_last());
        lemma_entries_map_dom(s.drop_last(), s.last().0@);
        assert(forall|j: int| 0 <= j < s.drop_last().len() ==> s.drop_last()[j] == s[j]);
        assert(!entries_map(s.drop_last()).contains_key(s.last().0@));
        assert(entries_map(s).dom() =~= entries_map(s.drop_last()).dom().insert(s.last().0@));
        vstd::set::axiom_set_insert_finite(entries_map(s.drop_last()).dom(), s.last().0@);
        vstd::set::axiom_set_insert_len(entries_map(s.drop_last()).dom(), s.last().0@);
    }
}

} // verus!
