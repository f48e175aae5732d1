//! Clipboard history: the latest distinct texts copied, newest first.
use vstd::prelude::*;
use crate::matching::strs_view;
use crate::provider::{Action, ActionView, Candidate, CandidateView, Provider, candidate_views};
use crate::text::{
    chars_of, collapse_whitespace, collapse_ws, concat3, has_substring, lowercase,
    lowercase_contains, query_key, query_key_chars, string_from_chars, trim, trim_spec,
};

verus! {

/// How many texts the history keeps.
pub const MAX_HISTORY: usize = 30;

/// How many characters of a text a candidate's label shows.
pub const MAX_LABEL_CHARS: usize = 60;

/// The texts copied so far, newest first.
pub struct ClipboardHistory {
    items: Vec<String>,
}

impl View for ClipboardHistory {
    type V = Seq<Seq<char>>;

    closed spec fn view(&self) -> Seq<Seq<char>> {
        strs_view(self.items@)
    }
}

/// What a well-kept history looks like: at most `MAX_HISTORY` texts, and no
/// text twice.
pub open spec fn history_wf(h: Seq<Seq<char>>) -> bool {
    &&& h.len() <= MAX_HISTORY
    &&& forall|i: int, j: int| 0 <= i < j < h.len() ==> h[i] != h[j]
}

/// No text in the history is empty or has white space at either end.
pub open spec fn entries_trimmed(h: Seq<Seq<char>>) -> bool {
    forall|i: int| 0 <= i < h.len() ==> #[trigger] h[i].len() > 0 && trim_spec(h[i]) == h[i]
}

/// Whether an entry differs from `t`.
pub open spec fn differs_from(t: Seq<char>) -> spec_fn(Seq<char>) -> bool {
    |e: Seq<char>| e != t
}

/// The history after `t` is recorded: `t` in front, any older copy of it
/// removed, and the whole cut to `MAX_HISTORY` entries.
pub open spec fn record(h: Seq<Seq<char>>, t: Seq<char>) -> Seq<Seq<char>> {
    let s = seq![t] + h.filter(differs_from(t));
    if s.len() > MAX_HISTORY {
        s.take(MAX_HISTORY as int)
    } else {
        s
    }
}

/// The characters of an optional text.
pub open spec fn opt_text(t: Option<String>) -> Option<Seq<char>> {
    match t {
        Some(s) => Some(s@),
        None => None,
    }
}

/// Whether a poll records what it read: a text that, trimmed, is non-empty
/// and differs from the text recorded at the previous poll.
pub open spec fn poll_records(last_seen: Option<Seq<char>>, read: Option<Seq<char>>) -> bool {
    match read {
        None => false,
        Some(raw) => {
            let t = trim_spec(raw);
            t.len() > 0 && last_seen != Some(t)
        },
    }
}

/// The history after a poll that read `read`, given the text recorded at the
/// previous poll.
pub open spec fn polled(h: Seq<Seq<char>>, last_seen: Option<Seq<char>>, read: Option<Seq<char>>) -> Seq<Seq<char>> {
    if poll_records(last_seen, read) {
        record(h, trim_spec(read->Some_0))
    } else {
        h
    }
}

impl ClipboardHistory {
    /// An empty history.
    pub fn new() -> (r: ClipboardHistory)
        ensures
            r@ == Seq::<Seq<char>>::empty(),
    {
        let r = ClipboardHistory { items: Vec::new() };
        assert(r@ =~= Seq::<Seq<char>>::empty());
        r
    }

    /// The texts, newest first.
    pub fn items(&self) -> (r: &Vec<String>)
        ensures
            strs_view(r@) == self@,
    {
        &self.items
    }

    /// The number of texts.
    pub fn len(&self) -> (r: usize)
        ensures
            r == self@.len(),
    {
        self.items.len()
    }

    /// Forgets every text.
    pub fn clear(&mut self)
        ensures
            final(self)@ == Seq::<Seq<char>>::empty(),
    {
        self.items = Vec::new();
        assert(self@ =~= Seq::<Seq<char>>::empty());
    }

    /// Puts `text` in front, dropping older copies and what no longer fits.
    fn push_front_unique(&mut self, text: String)
        ensures
            final(self)@ == record(old(self)@, text@),
    {
        let ghost h = self@;
        let ghost pred = differs_from(text@);
        let mut next: Vec<String> = Vec::new();
        next.push(text.clone());
        let n = self.items.len();
        let mut i: usize = 0;
        assert(h.take(0) =~= seq![]);
        assert(strs_view(next@) =~= seq![text@] + h.take(0).filter(pred));
        while i < n
            invariant
                i <= n,
                n == self.items@.len(),
                h == strs_view(self.items@),
                pred == differs_from(text@),
                strs_view(next@) == seq![text@] + h.take(i as int).filter(pred),
            decreases n - i,
        {
            proof {
                reveal_with_fuel(Seq::filter, 1);
                assert(h.take(i as int + 1).drop_last() =~= h.take(i as int));
                assert(h.take(i as int + 1).last() == self.items@[i as int]@);
            }
            if self.items[i] != text {
                let ghost before = next@;
                next.push(self.items[i].clone());
                assert(strs_view(next@) =~= strs_view(before).push(self.items@[i as int]@));
            } else {
                assert(self.items@[i as int]@ == text@);
            }
            i = i + 1;
        }
        assert(h.take(n as int) =~= h);
        if next.len() > MAX_HISTORY {
            next.truncate(MAX_HISTORY);
        }
        self.items = next;
        assert(self@ =~= record(h, text@));
    }
}

/// A new, empty history.
pub fn new_history() -> (r: ClipboardHistory)
    ensures
        r@ == Seq::<Seq<char>>::empty(),
{
    ClipboardHistory::new()
}

/// Records what the clipboard held at a poll. `clipboard_text` is the text
/// read (`None` when the clipboard could not be opened or held no text);
/// `last_seen` is the text recorded at the previous poll. The text, trimmed,
/// is recorded unless it is empty or the same as `last_seen`; the result
/// says whether the history changed.
pub fn poll(
    history: &mut ClipboardHistory,
    last_seen: &mut Option<String>,
    clipboard_text: Option<String>,
) -> (changed: bool)
    ensures
        ({
            match clipboard_text {
                None => !changed,
                Some(raw) => {
                    let t = trim_spec(raw@);
                    let seen = match *old(last_seen) {
                        Some(s) => s@ == t,
                        None => false,
                    };
                    changed == (t.len() > 0 && !seen)
                }
            }
        }),
        changed ==> ({
            let t = trim_spec(clipboard_text->Some_0@);
            &&& final(history)@ == record(old(history)@, t)
            &&& *final(last_seen) matches Some(s) && s@ == t
        }),
        !changed ==> final(history)@ == old(history)@ && *final(last_seen) == *old(last_seen),
        changed == poll_records(opt_text(*old(last_seen)), opt_text(clipboard_text)),
        final(history)@ == polled(old(history)@, opt_text(*old(last_seen)), opt_text(clipboard_text)),
{
    let raw = match clipboard_text {
        None => return false,
        Some(raw) => raw,
    };
    let text = trim(raw.as_str());
    if text.as_str().is_empty() {
        return false;
    }
    let same = match last_seen {
        Some(s) => *s == text,
        None => false,
    };
    if same {
        return false;
    }
    assert(text@.len() > 0);
    *last_seen = Some(text.clone());
    history.push_front_unique(text);
    true
}

/// Recording a text keeps a well-kept history well kept.
pub proof fn law_record_keeps_history_wf(h: Seq<Seq<char>>, t: Seq<char>)
    requires
        history_wf(h),
    ensures
        history_wf(record(h, t)),
        record(h, t).len() > 0,
        record(h, t)[0] == t,
{
    broadcast use vstd::seq_lib::group_filter_ensures;
    let f = h.filter(differs_from(t));
    let s = seq![t] + f;
    lemma_filter_distinct(h, t);
    assert forall|i: int, j: int| 0 <= i < j < s.len() implies s[i] != s[j] by {
        if i == 0 {
            assert(s[j] == f[j - 1]);
            assert(differs_from(t)(f[j - 1]));
        } else {
            assert(s[i] == f[i - 1]);
            assert(s[j] == f[j - 1]);
        }
    }
    lemma_filter_len_le(h, t);
}

/// Recording a non-empty trimmed text keeps every entry non-empty and trimmed.
pub proof fn law_record_keeps_entries_trimmed(h: Seq<Seq<char>>, t: Seq<char>)
    requires
        entries_trimmed(h),
        t.len() > 0,
        trim_spec(t) == t,
    ensures
        entries_trimmed(record(h, t)),
{
    broadcast use vstd::seq_lib::group_filter_ensures;
    let f = h.filter(differs_from(t));
    let s = seq![t] + f;
    assert forall|i: int| 0 <= i < s.len() implies #[trigger] s[i].len() > 0 && trim_spec(s[i]) == s[i] by {
        if i > 0 {
            assert(s[i] == f[i - 1]);
            assert(f.contains(f[i - 1]));
            lemma_filter_member(h, t, f[i - 1]);
        }
    }
    let r = record(h, t);
    assert forall|i: int| 0 <= i < r.len() implies #[trigger] r[i].len() > 0 && trim_spec(r[i]) == r[i] by {
        assert(r[i] == s[i]);
    }
}

/// What the filter keeps comes from the history.
proof fn lemma_filter_member(h: Seq<Seq<char>>, t: Seq<char>, x: Seq<char>)
    requires
        h.filter(differs_from(t)).contains(x),
    ensures
        h.contains(x),
    decreases h.len(),
{
    reveal_with_fuel(Seq::filter, 1);
    if h.len() > 0 {
        let d = h.drop_last();
        if d.filter(differs_from(t)).contains(x) {
            lemma_filter_member(d, t, x);
            let j = choose|j: int| 0 <= j < d.len() && d[j] == x;
            assert(h[j] == x);
        } else {
            assert(h[h.len() - 1] == x);
        }
    }
}

proof fn lemma_filter_len_le(h: Seq<Seq<char>>, t: Seq<char>)
    ensures
        h.filter(differs_from(t)).len() <= h.len(),
{
    h.lemma_filter_len(differs_from(t));
}

/// Filtering keeps entries distinct, and every kept entry comes from `h`.
proof fn lemma_filter_distinct(h: Seq<Seq<char>>, t: Seq<char>)
    requires
        forall|i: int, j: int| 0 <= i < j < h.len() ==> h[i] != h[j],
    ensures
        forall|i: int, j: int|
            0 <= i < j < h.filter(differs_from(t)).len() ==> h.filter(differs_from(t))[i] != h.filter(
                differs_from(t),
            )[j],
        forall|i: int|
            0 <= i < h.filter(differs_from(t)).len() ==> h.contains(
                #[trigger] h.filter(differs_from(t))[i],
            ),
    decreases h.len(),
{
    reveal_with_fuel(Seq::filter, 1);
    if h.len() > 0 {
        let d = h.drop_last();
        assert forall|i: int, j: int| 0 <= i < j < d.len() implies d[i] != d[j] by {
            assert(d[i] == h[i]);
            assert(d[j] == h[j]);
        }
        lemma_filter_distinct(d, t);
        let fd = d.filter(differs_from(t));
        assert forall|i: int| 0 <= i < fd.len() implies h.contains(#[trigger] fd[i]) by {
            let k = choose|k: int| 0 <= k < d.len() && d[k] == fd[i];
            assert(h[k] == d[k]);
        }
        if differs_from(t)(h.last()) {
            let f = fd.push(h.last());
            assert forall|i: int| 0 <= i < fd.len() implies fd[i] != h.last() by {
                let k = choose|k: int| 0 <= k < d.len() && d[k] == fd[i];
                assert(h[k] == d[k]);
                assert(h[h.len() - 1] == h.last());
            }
            assert forall|i: int, j: int| 0 <= i < j < f.len() implies f[i] != f[j] by {
                if j == f.len() - 1 {
                    assert(f[i] == fd[i]);
                } else {
                    assert(f[i] == fd[i]);
                    assert(f[j] == fd[j]);
                }
            }
            assert forall|i: int| 0 <= i < f.len() implies h.contains(#[trigger] f[i]) by {
                if i == f.len() - 1 {
                    assert(h[h.len() - 1] == f[i]);
                } else {
                    assert(f[i] == fd[i]);
                }
            }
        }
    }
}

/// A poll keeps a well-kept history well kept: whatever it read and
/// whatever it saw before, the history after it holds at most `MAX_HISTORY`
/// texts and none twice; when it records a text, that text comes first.
pub proof fn law_poll_keeps_history_wf(h: Seq<Seq<char>>, last_seen: Option<Seq<char>>, read: Option<Seq<char>>)
    requires
        history_wf(h),
    ensures
        history_wf(polled(h, last_seen, read)),
        poll_records(last_seen, read) ==> polled(h, last_seen, read)[0] == trim_spec(read->Some_0),
{
    if poll_records(last_seen, read) {
        law_record_keeps_history_wf(h, trim_spec(read->Some_0));
    }
}

/// A poll keeps every entry of the history non-empty and trimmed.
pub proof fn law_poll_keeps_entries_trimmed(h: Seq<Seq<char>>, last_seen: Option<Seq<char>>, read: Option<Seq<char>>)
    requires
        entries_trimmed(h),
    ensures
        entries_trimmed(polled(h, last_seen, read)),
{
    if poll_records(last_seen, read) {
        let raw = read->Some_0;
        crate::text::law_trim_idempotent(raw);
        law_record_keeps_entries_trimmed(h, trim_spec(raw));
    }
}

/// An entry that a predicate keeps appears in the filtered sequence no later
/// than where it stood.
proof fn lemma_filter_keeps_early(h: Seq<Seq<char>>, pred: spec_fn(Seq<char>) -> bool, i: int)
    requires
        0 <= i < h.len(),
        pred(h[i]),
    ensures
        exists|k: int| 0 <= k <= i && k < h.filter(pred).len() && h.filter(pred)[k] == h[i],
    decreases h.len(),
{
    reveal_with_fuel(Seq::filter, 1);
    let d = h.drop_last();
    let fd = d.filter(pred);
    d.lemma_filter_len(pred);
    if i == h.len() - 1 {
        assert(h.filter(pred)[fd.len() as int] == h[i]);
    } else {
        lemma_filter_keeps_early(d, pred, i);
        let k = choose|k: int| 0 <= k <= i && k < fd.len() && fd[k] == d[i];
        assert(h.filter(pred)[k] == h[i]);
    }
}

/// Recording a text removes only its own older copies: an entry of the
/// history that differs from the new text, and that still fits after the new
/// text is put in front (among the first `MAX_HISTORY - 1` entries), stays in
/// the history.
pub proof fn law_record_keeps_other_texts(h: Seq<Seq<char>>, t: Seq<char>, i: int)
    requires
        0 <= i < h.len(),
        i < MAX_HISTORY - 1,
        h[i] != t,
    ensures
        record(h, t).contains(h[i]),
{
    let pred = differs_from(t);
    lemma_filter_keeps_early(h, pred, i);
    let f = h.filter(pred);
    let k = choose|k: int| 0 <= k <= i && k < f.len() && f[k] == h[i];
    let s = seq![t] + f;
    assert(s[k + 1] == h[i]);
    if s.len() > MAX_HISTORY {
        assert(s.take(MAX_HISTORY as int)[k + 1] == h[i]);
    }
}

/// Filtering out a text that does not occur leaves a sequence as it was.
proof fn lemma_filter_absent(h: Seq<Seq<char>>, t: Seq<char>)
    requires
        !h.contains(t),
    ensures
        h.filter(differs_from(t)) == h,
    decreases h.len(),
{
    reveal_with_fuel(Seq::filter, 1);
    if h.len() > 0 {
        let d = h.drop_last();
        assert forall|k: int| 0 <= k < d.len() implies d[k] != t by {
            assert(h[k] == d[k]);
        }
        lemma_filter_absent(d, t);
        assert(h.last() == h[h.len() - 1]);
        assert(d.push(h.last()) =~= h);
    }
}

/// Recording a text that is not yet in the history, while there is room,
/// puts it in front of the history and changes nothing else.
pub proof fn law_record_new_text(h: Seq<Seq<char>>, t: Seq<char>)
    requires
        !h.contains(t),
        h.len() < MAX_HISTORY,
    ensures
        record(h, t) == seq![t] + h,
{
    lemma_filter_absent(h, t);
}

/// Recording a text adds nothing but that text: every later entry of the
/// new history was already in the old one and differs from the new text.
pub proof fn law_record_adds_only_the_text(h: Seq<Seq<char>>, t: Seq<char>)
    ensures
        record(h, t).len() > 0,
        record(h, t)[0] == t,
        forall|j: int| 1 <= j < record(h, t).len() ==> #[trigger] record(h, t)[j] != t && h.contains(record(h, t)[j]),
{
    broadcast use vstd::seq_lib::group_filter_ensures;
    let f = h.filter(differs_from(t));
    let s = seq![t] + f;
    assert forall|j: int| 1 <= j < record(h, t).len() implies #[trigger] record(h, t)[j] != t && h.contains(record(h, t)[j]) by {
        assert(record(h, t)[j] == s[j]);
        assert(s[j] == f[j - 1]);
        assert(f.contains(f[j - 1]));
        h.lemma_filter_contains_rev(differs_from(t), f[j - 1]);
    }
}

/// The label text for a clipboard entry: white space runs collapsed to one
/// space, and cut to `MAX_LABEL_CHARS` characters followed by `…` when longer.
pub open spec fn label_text(t: Seq<char>) -> Seq<char> {
    let c = collapse_ws(t);
    if c.len() <= MAX_LABEL_CHARS {
        c
    } else {
        c.take(MAX_LABEL_CHARS as int).push('…')
    }
}

/// Shortens a text for display: collapses white space and cuts it to
/// `MAX_LABEL_CHARS` characters plus an ellipsis.
pub fn truncate(text: &str) -> (r: String)
    ensures
        r@ == label_text(text@),
{
    let v = chars_of(text);
    let mut c = collapse_whitespace(&v);
    if c.len() <= MAX_LABEL_CHARS {
        return string_from_chars(c.as_slice());
    }
    c.truncate(MAX_LABEL_CHARS);
    c.push('…');
    string_from_chars(c.as_slice())
}

/// The candidate offered for a history entry.
pub open spec fn clipboard_candidate(t: Seq<char>) -> CandidateView {
    CandidateView {
        label: "「"@ + label_text(t) + "」をコピー"@,
        source: "Clipboard"@,
        action: ActionView::CopyToClipboard(t),
    }
}

/// Whether an entry is shown for a query key: every entry for an empty key,
/// else those whose lower-cased text contains the key.
pub open spec fn shown_for(key: Seq<char>) -> spec_fn(Seq<char>) -> bool {
    |t: Seq<char>| key.len() == 0 || has_substring(lowercase(t), key)
}

/// The candidates for a query: one per shown entry, newest first.
pub open spec fn clipboard_offered(h: Seq<Seq<char>>, query: Seq<char>) -> Seq<CandidateView> {
    h.filter(shown_for(query_key(query))).map_values(|t: Seq<char>| clipboard_candidate(t))
}

/// Offers the clipboard history: each entry that matches the query (all of
/// them for a blank query) as a candidate that copies it again.
pub struct ClipboardProvider {
    pub history: ClipboardHistory,
}

impl ClipboardProvider {
    pub fn new(history: ClipboardHistory) -> (r: ClipboardProvider)
        ensures
            r.history@ == history@,
    {
        ClipboardProvider { history }
    }
}

impl Provider for ClipboardProvider {
    open spec fn provider_name(&self) -> Seq<char> {
        "Clipboard"@
    }

    open spec fn offered(&self, query: Seq<char>) -> Seq<CandidateView> {
        clipboard_offered(self.history@, query)
    }

    fn name(&self) -> (r: &'static str) {
        "Clipboard"
    }

    fn candidates(&self, query: &str) -> (r: Vec<Candidate>) {
        let key = query_key_chars(query);
        let items = self.history.items();
        let ghost h = self.history@;
        let ghost pred = shown_for(key@);
        let ghost f = |t: Seq<char>| clipboard_candidate(t);
        let mut out: Vec<Candidate> = Vec::new();
        let n = items.len();
        let mut i: usize = 0;
        assert(h.take(0) =~= seq![]);
        assert(candidate_views(out@) =~= h.take(0).filter(pred).map_values(f));
        while i < n
            invariant
                i <= n,
                n == items@.len(),
                h == strs_view(items@),
                pred == shown_for(key@),
                f == (|t: Seq<char>| clipboard_candidate(t)),
                candidate_views(out@) == h.take(i as int).filter(pred).map_values(f),
            decreases n - i,
        {
            let text = &items[i];
            proof {
                reveal_with_fuel(Seq::filter, 1);
                assert(h.take(i as int + 1).drop_last() =~= h.take(i as int));
                assert(h.take(i as int + 1).last() == text@);
            }
            let hit = key.len() == 0 || lowercase_contains(text.as_str(), &key);
            if hit {
                let label = concat3("「", truncate(text.as_str()).as_str(), "」をコピー");
                let ghost before = out@;
                let ghost fb = h.take(i as int).filter(pred);
                let c = Candidate { label, source: "Clipboard", action: Action::CopyToClipboard(text.clone()) };
                assert(c@ == clipboard_candidate(text@));
                out.push(c);
                assert(candidate_views(out@) =~= candidate_views(before).push(c@));
                assert(fb.push(text@).map_values(f) =~= fb.map_values(f).push(f(text@)));
            }
            i = i + 1;
        }
        assert(h.take(n as int) =~= h);
        out
    }
}

/// A blank query lists the whole history, newest first.
pub proof fn law_blank_query_lists_whole_history(h: Seq<Seq<char>>, query: Seq<char>)
    requires
        query_key(query).len() == 0,
    ensures
        clipboard_offered(h, query) == h.map_values(|t: Seq<char>| clipboard_candidate(t)),
    decreases h.len(),
{
    reveal_with_fuel(Seq::filter, 1);
    let pred = shown_for(query_key(query));
    if h.len() > 0 {
        law_blank_query_lists_whole_history(h.drop_last(), query);
        assert(pred(h.last()));
        let f = |t: Seq<char>| clipboard_candidate(t);
        assert(h.drop_last().filter(pred).push(h.last()).map_values(f) =~= h.drop_last().filter(pred).map_values(f).push(f(h.last())));
        assert(h.map_values(f) =~= h.drop_last().map_values(f).push(f(h.last())));
    } else {
        assert(h.filter(pred) =~= h);
        assert(h.map_values(|t: Seq<char>| clipboard_candidate(t)) =~= Seq::<CandidateView>::empty());
    }
}

} // verus!
