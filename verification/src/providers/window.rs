//! Offers the open windows whose title matches the query, to switch to.
use vstd::prelude::*;
use crate::provider::{Action, ActionView, Candidate, CandidateView, Provider, candidate_views};
use crate::text::{concat2, has_substring, lowercase, lowercase_contains, query_key, query_key_chars, str_eq};

verus! {

/// An open window: its title and its handle.
#[derive(Debug, Clone)]
pub struct WindowEntry {
    pub title: String,
    pub hwnd: isize,
}

/// The value of a [`WindowEntry`].
pub struct WindowEntryView {
    pub title: Seq<char>,
    pub hwnd: isize,
}

impl View for WindowEntry {
    type V = WindowEntryView;

    open spec fn view(&self) -> WindowEntryView {
        WindowEntryView { title: self.title@, hwnd: self.hwnd }
    }
}

/// The values of a list of windows.
pub open spec fn window_views(v: Seq<WindowEntry>) -> Seq<WindowEntryView> {
    v.map_values(|w: WindowEntry| w@)
}

/// The extended window style bit of a tool window (`WS_EX_TOOLWINDOW`).
pub const WS_EX_TOOLWINDOW: u32 = 0x80;

/// What the system reports of a top-level window.
pub struct WindowInfo {
    /// Whether it is visible.
    pub visible: bool,
    /// Whether it has an owner window (as dialogs do).
    pub has_owner: bool,
    /// Its extended style bits.
    pub ex_style: u32,
    /// The cloaked attribute, when it could be read.
    pub cloaked: Option<u32>,
    /// Its title (empty when it has none or it could not be read).
    pub title: String,
}

/// Whether a window belongs in the list, as one the taskbar would show: it is
/// visible, has no owner, is no tool window, is not cloaked, has a title, and
/// is not the launcher itself (titled "Poppy").
pub open spec fn switchable(visible: bool, has_owner: bool, ex_style: u32, cloaked: Option<u32>, title: Seq<char>) -> bool {
    &&& visible
    &&& !has_owner
    &&& ex_style & WS_EX_TOOLWINDOW == 0
    &&& !(cloaked matches Some(c) && c != 0)
    &&& title.len() > 0
    &&& title != "Poppy"@
}

/// Whether the window is listed.
pub fn is_switchable(info: &WindowInfo) -> (r: bool)
    ensures
        r == switchable(info.visible, info.has_owner, info.ex_style, info.cloaked, info.title@),
{
    if !info.visible || info.has_owner {
        return false;
    }
    if info.ex_style & WS_EX_TOOLWINDOW != 0 {
        return false;
    }
    match info.cloaked {
        Some(c) => {
            if c != 0 {
                return false;
            }
        },
        None => {},
    }
    if info.title.as_str().is_empty() {
        return false;
    }
    !str_eq(info.title.as_str(), "Poppy")
}

/// The candidate offered for a window.
pub open spec fn window_candidate(w: WindowEntryView) -> CandidateView {
    CandidateView { label: w.title + " に切り替え"@, source: "Window"@, action: ActionView::FocusWindow(w.hwnd) }
}

/// Whether a window is shown for a query key: every window for an empty key,
/// else those whose lower-cased title contains the key.
pub open spec fn window_shown(key: Seq<char>) -> spec_fn(WindowEntryView) -> bool {
    |w: WindowEntryView| key.len() == 0 || has_substring(lowercase(w.title), key)
}

/// The candidates for a query: one per shown window, in order.
pub open spec fn window_offered(all: Seq<WindowEntryView>, query: Seq<char>) -> Seq<CandidateView> {
    all.filter(window_shown(query_key(query))).map_values(|w: WindowEntryView| window_candidate(w))
}

/// The windows offered depend on the query only through its key, the
/// lower-cased, trimmed query: queries that differ only in case or in
/// surrounding white space are offered the same windows.
pub proof fn law_window_query_ignores_case(all: Seq<WindowEntryView>, q1: Seq<char>, q2: Seq<char>)
    requires
        query_key(q1) == query_key(q2),
    ensures
        window_offered(all, q1) == window_offered(all, q2),
{
}

/// A window whose lower-cased title contains the lower-cased, trimmed query
/// is offered; and each window candidate is that of a listed window whose
/// lower-cased title contains the key (or the key is empty).
pub proof fn law_window_offers_matches(all: Seq<WindowEntryView>, query: Seq<char>, i: int)
    ensures
        0 <= i < all.len() && has_substring(lowercase(all[i].title), query_key(query)) ==> window_offered(
            all,
            query,
        ).contains(window_candidate(all[i])),
        forall|j: int|
            0 <= j < window_offered(all, query).len() ==> exists|w: WindowEntryView|
                all.contains(w) && #[trigger] window_offered(all, query)[j] == window_candidate(w) && (query_key(
                    query,
                ).len() == 0 || has_substring(lowercase(w.title), query_key(query))),
{
    broadcast use vstd::seq_lib::group_filter_ensures;
    let pred = window_shown(query_key(query));
    let fs = all.filter(pred);
    let f = |w: WindowEntryView| window_candidate(w);
    if 0 <= i < all.len() && has_substring(lowercase(all[i].title), query_key(query)) {
        all.lemma_filter_contains(pred, i);
        let k = choose|k: int| 0 <= k < fs.len() && fs[k] == all[i];
        assert(fs.map_values(f)[k] == window_candidate(all[i]));
    }
    assert forall|j: int| 0 <= j < window_offered(all, query).len() implies exists|w: WindowEntryView|
        all.contains(w) && #[trigger] window_offered(all, query)[j] == window_candidate(w) && (query_key(
            query,
        ).len() == 0 || has_substring(lowercase(w.title), query_key(query))) by {
        assert(fs.contains(fs[j]));
        all.lemma_filter_contains_rev(pred, fs[j]);
        assert(pred(fs[j]));
        assert(window_offered(all, query)[j] == window_candidate(fs[j]));
    }
}

/// Offers the open windows.
pub struct WindowProvider {
    windows: Vec<WindowEntry>,
}

impl WindowProvider {
    /// A provider over the given windows.
    pub fn new(windows: Vec<WindowEntry>) -> (r: WindowProvider)
        ensures
            window_views(r.items()@) == window_views(windows@),
    {
        WindowProvider { windows }
    }

    /// Replaces the windows with a freshly enumerated list.
    pub fn reload(&mut self, windows: Vec<WindowEntry>)
        ensures
            window_views(final(self).items()@) == window_views(windows@),
    {
        self.windows = windows;
    }

    /// The windows listed.
    pub closed spec fn items(&self) -> Vec<WindowEntry> {
        self.windows
    }
}

impl Provider for WindowProvider {
    open spec fn provider_name(&self) -> Seq<char> {
        "Window"@
    }

    open spec fn offered(&self, query: Seq<char>) -> Seq<CandidateView> {
        window_offered(window_views(self.items()@), query)
    }

    fn name(&self) -> (r: &'static str) {
        "Window"
    }

    fn candidates(&self, query: &str) -> (r: Vec<Candidate>) {
        let key = query_key_chars(query);
        let ghost all = window_views(self.windows@);
        let ghost pred = window_shown(key@);
        let ghost f = |w: WindowEntryView| window_candidate(w);
        let mut out: Vec<Candidate> = Vec::new();
        let n = self.windows.len();
        let mut i: usize = 0;
        assert(all.take(0) =~= seq![]);
        assert(candidate_views(out@) =~= all.take(0).filter(pred).map_values(f));
        while i < n
            invariant
                i <= n,
                n == self.windows@.len(),
                all == window_views(self.windows@),
                pred == window_shown(key@),
                f == (|w: WindowEntryView| window_candidate(w)),
                candidate_views(out@) == all.take(i as int).filter(pred).map_values(f),
            decreases n - i,
        {
            let w = &self.windows[i];
            proof {
                reveal_with_fuel(Seq::filter, 1);
                assert(all.take(i as int + 1).drop_last() =~= all.take(i as int));
                assert(all.take(i as int + 1).last() == w@);
            }
            if key.len() == 0 || lowercase_contains(w.title.as_str(), &key) {
                let c = Candidate {
                    label: concat2(w.title.as_str(), " に切り替え"),
                    source: "Window",
                    action: Action::FocusWindow(w.hwnd),
                };
                let ghost before = out@;
                let ghost fb = all.take(i as int).filter(pred);
                out.push(c);
                assert(candidate_views(out@) =~= candidate_views(before).push(c@));
                assert(fb.push(w@).map_values(f) =~= fb.map_values(f).push(f(w@)));
            }
            i = i + 1;
        }
        assert(all.take(n as int) =~= all);
        out
    }
}

} // verus!
