//! Installed applications: the shortcut files of the Start Menu and the
//! Store apps, offered by name to be started.
use vstd::prelude::*;
use crate::provider::{Action, ActionView, Candidate, CandidateView, Provider, candidate_views};
use crate::text::{
    chars_of, concat2, eq_ignore_ascii_case, eq_ignore_ascii_case_spec, has_substring, lowercase,
    lowercase_contains, query_key, query_key_chars, slice_chars, string_from_chars,
};

verus! {

/// An installed application.
#[derive(Debug, Clone)]
pub struct AppEntry {
    /// The name shown for the candidate.
    pub name: String,
    /// What to open to start it: the path of a `.lnk` file, or `shell:appsFolder\<AppID>`.
    pub target: String,
}

/// The value of an [`AppEntry`].
pub struct AppEntryView {
    pub name: Seq<char>,
    pub target: Seq<char>,
}

impl View for AppEntry {
    type V = AppEntryView;

    open spec fn view(&self) -> AppEntryView {
        AppEntryView { name: self.name@, target: self.target@ }
    }
}

/// The values of a list of applications.
pub open spec fn app_views(v: Seq<AppEntry>) -> Seq<AppEntryView> {
    v.map_values(|a: AppEntry| a@)
}

impl AppEntry {
    /// A copy of the entry.
    pub fn duplicate(&self) -> (r: AppEntry)
        ensures
            r@ == self@,
    {
        AppEntry { name: self.name.clone(), target: self.target.clone() }
    }
}

/// The list that the Store apps are fetched into: empty until they arrive.
pub fn new_shared_store_apps() -> (r: Vec<AppEntry>)
    ensures
        r@.len() == 0,
{
    Vec::new()
}

// ---------------------------------------------------------------------------
// Shortcut files
// ---------------------------------------------------------------------------

/// The index of the last `.` in `s`, if any.
pub open spec fn last_dot(s: Seq<char>) -> Option<int> {
    if exists|i: int| 0 <= i < s.len() && s[i] == '.' {
        Some(choose|i: int| 0 <= i < s.len() && s[i] == '.' && forall|j: int| i < j < s.len() ==> s[j] != '.')
    } else {
        None
    }
}

/// How `Path::file_stem` and `Path::extension` split a file name: `..` and
/// names with no dot, or whose only dot leads, have no extension and are
/// their own stem; otherwise the stem is what precedes the last dot and the
/// extension what follows it.
pub open spec fn stem_and_extension(name: Seq<char>) -> (Seq<char>, Option<Seq<char>>) {
    if name == ".."@ {
        (name, None)
    } else {
        match last_dot(name) {
            Some(p) if p > 0 => (name.take(p), Some(name.skip(p + 1))),
            _ => (name, None),
        }
    }
}

/// The application for a file found under the Start Menu: a file whose
/// extension is `lnk` in any ASCII case becomes an entry named by its stem,
/// started by opening `path`; any other file gives nothing.
pub open spec fn shortcut_entry(file_name: Seq<char>, path: Seq<char>) -> Option<AppEntryView> {
    let (stem, ext) = stem_and_extension(file_name);
    match ext {
        Some(e) if eq_ignore_ascii_case_spec(e, "lnk"@) => Some(AppEntryView { name: stem, target: path }),
        _ => None,
    }
}

/// The entry for a file found under the Start Menu, when it is a shortcut.
pub fn app_entry_for_file(file_name: &str, path: String) -> (r: Option<AppEntry>)
    ensures
        match r {
            Some(a) => shortcut_entry(file_name@, path@) == Some(a@),
            None => shortcut_entry(file_name@, path@) is None,
        },
{
    let v = chars_of(file_name);
    let n = v.len();
    proof {
        reveal_strlit("..");
        reveal_strlit("lnk");
    }
    if n == 2 && v[0] == '.' && v[1] == '.' {
        assert(v@ =~= ".."@);
        return None;
    }
    assert(v@ != ".."@) by {
        if v@ == ".."@ {
            assert(v@.len() == 2 && v@[0] == '.' && v@[1] == '.');
        }
    }
    // Find the last dot.
    let mut p = n;
    while p > 0 && v[p - 1] != '.'
        invariant
            p <= n,
            n == v@.len(),
            forall|j: int| p <= j < n ==> v@[j] != '.',
        decreases p,
    {
        p = p - 1;
    }
    if p <= 1 {
        // No dot, or only a leading one.
        assert(match last_dot(v@) {
            Some(q) if q > 0 => false,
            _ => true,
        }) by {
            if exists|i: int| 0 <= i < v@.len() && v@[i] == '.' {
                let q = choose|i: int| 0 <= i < v@.len() && v@[i] == '.' && forall|j: int| i < j < v@.len() ==> v@[j] != '.';
                assert(q < 1);
            }
        }
        return None;
    }
    let dot = p - 1;
    assert(last_dot(v@) == Some(dot as int)) by {
        assert(v@[dot as int] == '.');
        let q = choose|i: int| 0 <= i < v@.len() && v@[i] == '.' && forall|j: int| i < j < v@.len() ==> v@[j] != '.';
        if q < dot {
            assert(v@[dot as int] != '.');
        }
    }
    let ext = slice_chars(&v, p, n);
    let lnk = chars_of("lnk");
    assert(ext@ =~= v@.skip(p as int));
    if !eq_ignore_ascii_case(&ext, &lnk) {
        return None;
    }
    let stem = slice_chars(&v, 0, dot);
    assert(stem@ =~= v@.take(dot as int));
    Some(AppEntry { name: string_from_chars(stem.as_slice()), target: path })
}

// ---------------------------------------------------------------------------
// Store apps
// ---------------------------------------------------------------------------

/// One app as `Get-StartApps` lists it.
#[derive(Debug, Clone)]
pub struct StartApp {
    pub name: String,
    pub app_id: String,
}

/// The value of a [`StartApp`].
pub struct StartAppView {
    pub name: Seq<char>,
    pub app_id: Seq<char>,
}

impl View for StartApp {
    type V = StartAppView;

    open spec fn view(&self) -> StartAppView {
        StartAppView { name: self.name@, app_id: self.app_id@ }
    }
}

/// The values of a list of start apps.
pub open spec fn start_app_views(v: Seq<StartApp>) -> Seq<StartAppView> {
    v.map_values(|a: StartApp| a@)
}

/// Whether a start app is a Store (MSIX) app: its AppID holds a `!`.
pub open spec fn is_store_app(a: StartAppView) -> bool {
    a.app_id.contains('!')
}

/// The entry that starts a Store app through the shell's apps folder.
pub open spec fn store_entry(a: StartAppView) -> AppEntryView {
    AppEntryView { name: a.name, target: "shell:appsFolder\\"@ + a.app_id }
}

/// The Store apps among the start apps, in order, as entries (the others
/// are shortcut apps, which the Start Menu scan already finds).
pub open spec fn store_entries_spec(apps: Seq<StartAppView>) -> Seq<AppEntryView> {
    apps.filter(|a: StartAppView| is_store_app(a)).map_values(|a: StartAppView| store_entry(a))
}

fn has_bang(s: &str) -> (r: bool)
    ensures
        r == s@.contains('!'),
{
    let v = chars_of(s);
    let n = v.len();
    let mut k: usize = 0;
    while k < n
        invariant
            k <= n,
            n == v@.len(),
            v@ == s@,
            forall|j: int| 0 <= j < k ==> v@[j] != '!',
        decreases n - k,
    {
        if v[k] == '!' {
            assert(v@[k as int] == '!');
            return true;
        }
        k = k + 1;
    }
    false
}

/// The entries for the Store apps among the apps `Get-StartApps` lists.
pub fn store_app_entries(apps: Vec<StartApp>) -> (r: Vec<AppEntry>)
    ensures
        app_views(r@) == store_entries_spec(start_app_views(apps@)),
{
    let ghost all = start_app_views(apps@);
    let ghost pred = |a: StartAppView| is_store_app(a);
    let ghost f = |a: StartAppView| store_entry(a);
    let mut out: Vec<AppEntry> = Vec::new();
    let n = apps.len();
    let mut i: usize = 0;
    assert(all.take(0) =~= seq![]);
    assert(app_views(out@) =~= all.take(0).filter(pred).map_values(f));
    while i < n
        invariant
            i <= n,
            n == apps@.len(),
            all == start_app_views(apps@),
            pred == (|a: StartAppView| is_store_app(a)),
            f == (|a: StartAppView| store_entry(a)),
            app_views(out@) == all.take(i as int).filter(pred).map_values(f),
        decreases n - i,
    {
        let a = &apps[i];
        proof {
            reveal_with_fuel(Seq::filter, 1);
            assert(all.take(i as int + 1).drop_last() =~= all.take(i as int));
            assert(all.take(i as int + 1).last() == a@);
        }
        if has_bang(a.app_id.as_str()) {
            let e = AppEntry { name: a.name.clone(), target: concat2("shell:appsFolder\\", a.app_id.as_str()) };
            let ghost before = out@;
            let ghost fb = all.take(i as int).filter(pred);
            out.push(e);
            assert(app_views(out@) =~= app_views(before).push(e@));
            assert(fb.push(a@).map_values(f) =~= fb.map_values(f).push(f(a@)));
        }
        i = i + 1;
    }
    assert(all.take(n as int) =~= all);
    out
}

// ---------------------------------------------------------------------------
// The provider
// ---------------------------------------------------------------------------

/// The candidate that starts an application.
pub open spec fn app_candidate(a: AppEntryView) -> CandidateView {
    CandidateView { label: a.name + " を起動"@, source: "App"@, action: ActionView::Open(a.target) }
}

/// Whether an application's lower-cased name contains the key.
pub open spec fn app_matches(key: Seq<char>) -> spec_fn(AppEntryView) -> bool {
    |a: AppEntryView| has_substring(lowercase(a.name), key)
}

/// The candidates for a query: none for a blank query, else one per
/// application, shortcut apps first and then Store apps, whose name matches.
pub open spec fn app_offered(apps: Seq<AppEntryView>, store_apps: Seq<AppEntryView>, query: Seq<char>) -> Seq<CandidateView> {
    let key = query_key(query);
    if key.len() == 0 {
        seq![]
    } else {
        (apps + store_apps).filter(app_matches(key)).map_values(|a: AppEntryView| app_candidate(a))
    }
}

/// Offers the installed applications: shortcut apps and Store apps.
pub struct AppLauncherProvider {
    apps: Vec<AppEntry>,
    store_apps: Vec<AppEntry>,
}

fn append_matching(out: &mut Vec<Candidate>, list: &Vec<AppEntry>, key: &Vec<char>)
    ensures
        candidate_views(final(out)@) == candidate_views(old(out)@) + app_views(list@).filter(app_matches(key@)).map_values(
            |a: AppEntryView| app_candidate(a),
        ),
{
    let ghost all = app_views(list@);
    let ghost pred = app_matches(key@);
    let ghost f = |a: AppEntryView| app_candidate(a);
    let ghost start = candidate_views(out@);
    let n = list.len();
    let mut i: usize = 0;
    assert(all.take(0) =~= seq![]);
    assert(start + all.take(0).filter(pred).map_values(f) =~= start);
    while i < n
        invariant
            i <= n,
            n == list@.len(),
            all == app_views(list@),
            pred == app_matches(key@),
            f == (|a: AppEntryView| app_candidate(a)),
            candidate_views(out@) == start + all.take(i as int).filter(pred).map_values(f),
        decreases n - i,
    {
        let a = &list[i];
        proof {
            reveal_with_fuel(Seq::filter, 1);
            assert(all.take(i as int + 1).drop_last() =~= all.take(i as int));
            assert(all.take(i as int + 1).last() == a@);
        }
        if lowercase_contains(a.name.as_str(), key) {
            let c = Candidate { label: concat2(a.name.as_str(), " を起動"), source: "App", action: Action::Open(a.target.clone()) };
            let ghost before = out@;
            let ghost fb = all.take(i as int).filter(pred);
            out.push(c);
            assert(candidate_views(out@) =~= candidate_views(before).push(c@));
            assert(fb.push(a@).map_values(f) =~= fb.map_values(f).push(f(a@)));
            assert(start + fb.push(a@).map_values(f) =~= (start + fb.map_values(f)).push(f(a@)));
        }
        i = i + 1;
    }
    assert(all.take(n as int) =~= all);
}

impl AppLauncherProvider {
    /// A provider over the scanned shortcut apps and the Store apps.
    pub fn new(apps: Vec<AppEntry>, store_apps: Vec<AppEntry>) -> (r: AppLauncherProvider)
        ensures
            app_views(r.apps()@) == app_views(apps@),
            app_views(r.store_apps()@) == app_views(store_apps@),
    {
        AppLauncherProvider { apps, store_apps }
    }

    /// Replaces the shortcut apps with a fresh scan (the Store apps stay).
    pub fn reload(&mut self, apps: Vec<AppEntry>)
        ensures
            app_views(final(self).apps()@) == app_views(apps@),
            app_views(final(self).store_apps()@) == app_views(old(self).store_apps()@),
    {
        self.apps = apps;
    }

    /// Replaces the Store apps, once they have been fetched.
    pub fn set_store_apps(&mut self, store_apps: Vec<AppEntry>)
        ensures
            app_views(final(self).apps()@) == app_views(old(self).apps()@),
            app_views(final(self).store_apps()@) == app_views(store_apps@),
    {
        self.store_apps = store_apps;
    }

    /// The shortcut apps.
    pub closed spec fn apps(&self) -> Vec<AppEntry> {
        self.apps
    }

    /// The Store apps.
    pub closed spec fn store_apps(&self) -> Vec<AppEntry> {
        self.store_apps
    }
}

impl Provider for AppLauncherProvider {
    open spec fn provider_name(&self) -> Seq<char> {
        "App"@
    }

    open spec fn offered(&self, query: Seq<char>) -> Seq<CandidateView> {
        app_offered(app_views(self.apps()@), app_views(self.store_apps()@), query)
    }

    fn name(&self) -> (r: &'static str) {
        "App"
    }

    fn candidates(&self, query: &str) -> (r: Vec<Candidate>) {
        let key = query_key_chars(query);
        if key.len() == 0 {
            assert(candidate_views(Seq::<Candidate>::empty()) =~= seq![]);
            return Vec::new();
        }
        let mut out: Vec<Candidate> = Vec::new();
        assert(candidate_views(out@) =~= seq![]);
        append_matching(&mut out, &self.apps, &key);
        append_matching(&mut out, &self.store_apps, &key);
        proof {
            let a = app_views(self.apps@);
            let s = app_views(self.store_apps@);
            let pred = app_matches(key@);
            Seq::filter_distributes_over_add(a, s, pred);
            assert(app_views(self.apps@) + app_views(self.store_apps@) == a + s);
            let f = |x: AppEntryView| app_candidate(x);
            assert((a.filter(pred) + s.filter(pred)).map_values(f) =~= a.filter(pred).map_values(f) + s.filter(pred).map_values(f));
            assert(seq![] + a.filter(pred).map_values(f) =~= a.filter(pred).map_values(f));
        }
        out
    }
}

} // verus!
