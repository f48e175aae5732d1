//! The order of the shortcut apps: sorted by lower-cased name, keeping the
//! scan order among equal names, with names that differ only in ASCII case
//! listed once.
use vstd::prelude::*;
use crate::providers::app_launcher::{AppEntry, AppEntryView, app_entry_for_file, app_views, shortcut_entry};
use crate::text::{ascii_fold, eq_ignore_ascii_case, eq_ignore_ascii_case_spec, lowercase, lowercase_chars};

verus! {

// ---------------------------------------------------------------------------
// String order
// ---------------------------------------------------------------------------

/// The order of `String`'s `Ord`: lexicographic on the UTF-8 bytes, which is
/// the same as lexicographic on the characters' code points, since UTF-8
/// keeps the order of code points.
pub open spec fn lex_lt(a: Seq<char>, b: Seq<char>) -> bool
    decreases a.len(),
{
    if b.len() == 0 {
        false
    } else if a.len() == 0 {
        true
    } else if a[0] != b[0] {
        (a[0] as u32) < (b[0] as u32)
    } else {
        lex_lt(a.drop_first(), b.drop_first())
    }
}

pub proof fn lemma_lex_irreflexive(a: Seq<char>)
    ensures
        !lex_lt(a, a),
    decreases a.len(),
{
    if a.len() > 0 {
        lemma_lex_irreflexive(a.drop_first());
    }
}

pub proof fn lemma_lex_asymmetric(a: Seq<char>, b: Seq<char>)
    ensures
        lex_lt(a, b) ==> !lex_lt(b, a),
    decreases a.len(),
{
    if a.len() > 0 && b.len() > 0 && a[0] == b[0] {
        lemma_lex_asymmetric(a.drop_first(), b.drop_first());
    }
}

pub proof fn lemma_lex_transitive(a: Seq<char>, b: Seq<char>, c: Seq<char>)
    ensures
        lex_lt(a, b) && lex_lt(b, c) ==> lex_lt(a, c),
    decreases a.len(),
{
    if a.len() > 0 && b.len() > 0 && c.len() > 0 {
        lemma_lex_transitive(a.drop_first(), b.drop_first(), c.drop_first());
    }
}

pub proof fn lemma_lex_total(a: Seq<char>, b: Seq<char>)
    ensures
        a == b || lex_lt(a, b) || lex_lt(b, a),
    decreases a.len(),
{
    if a.len() == 0 && b.len() == 0 {
        assert(a =~= b);
    } else if a.len() > 0 && b.len() > 0 && a[0] == b[0] {
        lemma_lex_total(a.drop_first(), b.drop_first());
        if a.drop_first() == b.drop_first() {
            assert(a =~= seq![a[0]] + a.drop_first());
            assert(b =~= seq![b[0]] + b.drop_first());
        }
    } else if a.len() > 0 && b.len() > 0 {
        vstd::utf8::char_u32_cast(a[0], a[0] as u32);
        vstd::utf8::char_u32_cast(b[0], b[0] as u32);
    }
}

/// Whether `a` comes strictly before `b`.
pub fn lex_less(a: &Vec<char>, b: &Vec<char>) -> (r: bool)
    ensures
        r == lex_lt(a@, b@),
{
    let mut i: usize = 0;
    assert(a@.skip(0) =~= a@);
    assert(b@.skip(0) =~= b@);
    while i < a.len() && i < b.len() && a[i] == b[i]
        invariant
            i <= a.len(),
            i <= b.len(),
            lex_lt(a@, b@) == lex_lt(a@.skip(i as int), b@.skip(i as int)),
        decreases a.len() - i,
    {
        proof {
            let x = a@.skip(i as int);
            let y = b@.skip(i as int);
            assert(x[0] == y[0]);
            assert(x.drop_first() =~= a@.skip(i + 1));
            assert(y.drop_first() =~= b@.skip(i + 1));
        }
        i = i + 1;
    }
    proof {
        assert(a@.skip(0) =~= a@);
        assert(b@.skip(0) =~= b@);
    }
    if i == b.len() {
        false
    } else if i == a.len() {
        true
    } else {
        proof {
            assert(a@.skip(i as int)[0] == a@[i as int]);
            assert(b@.skip(i as int)[0] == b@[i as int]);
        }
        (a[i] as u32) < (b[i] as u32)
    }
}

// ---------------------------------------------------------------------------
// Stable sort by lower-cased name
// ---------------------------------------------------------------------------

/// The sort key of an application: its lower-cased name.
pub open spec fn app_key(e: AppEntryView) -> Seq<char> {
    lowercase(e.name)
}

/// Whether an application's key is `k`.
pub open spec fn has_key(k: Seq<char>) -> spec_fn(AppEntryView) -> bool {
    |e: AppEntryView| app_key(e) == k
}

/// No application comes after one with a larger key.
pub open spec fn key_sorted(s: Seq<AppEntryView>) -> bool {
    forall|i: int, j: int| 0 <= i < j < s.len() ==> !lex_lt(#[trigger] app_key(s[j]), #[trigger] app_key(s[i]))
}

/// `output` is `input` sorted stably by key: sorted, and for every key the
/// applications with that key are those of `input`, in the same order.
pub open spec fn stable_sort_of(input: Seq<AppEntryView>, output: Seq<AppEntryView>) -> bool {
    &&& key_sorted(output)
    &&& forall|k: Seq<char>| #[trigger] output.filter(has_key(k)) == input.filter(has_key(k))
}

/// The stable sort of `input` by key (which exists and is unique: see
/// `law_stable_sort_unique` and `sort_apps`).
pub open spec fn sorted_apps(input: Seq<AppEntryView>) -> Seq<AppEntryView> {
    choose|s: Seq<AppEntryView>| stable_sort_of(input, s)
}

proof fn lemma_filter_none(s: Seq<AppEntryView>, pred: spec_fn(AppEntryView) -> bool)
    requires
        forall|j: int| 0 <= j < s.len() ==> !pred(#[trigger] s[j]),
    ensures
        s.filter(pred) == Seq::<AppEntryView>::empty(),
    decreases s.len(),
{
    reveal_with_fuel(Seq::filter, 1);
    if s.len() > 0 {
        let d = s.drop_last();
        assert forall|j: int| 0 <= j < d.len() implies !pred(#[trigger] d[j]) by {
            assert(d[j] == s[j]);
        }
        lemma_filter_none(d, pred);
        assert(!pred(s[s.len() - 1]));
    }
}

proof fn lemma_filter_single(x: AppEntryView, pred: spec_fn(AppEntryView) -> bool)
    ensures
        seq![x].filter(pred) == (if pred(x) { seq![x] } else { Seq::<AppEntryView>::empty() }),
{
    reveal_with_fuel(Seq::filter, 2);
    assert(seq![x].drop_last() =~= Seq::<AppEntryView>::empty());
    if pred(x) {
        assert(Seq::<AppEntryView>::empty().push(x) =~= seq![x]);
    }
}

/// Filtering after inserting `x` at `p`, when no element from `p` on passes.
proof fn lemma_filter_insert(s: Seq<AppEntryView>, p: int, x: AppEntryView, pred: spec_fn(AppEntryView) -> bool)
    requires
        0 <= p <= s.len(),
        forall|j: int| p <= j < s.len() ==> !pred(#[trigger] s[j]),
    ensures
        s.insert(p, x).filter(pred) == (if pred(x) { s.filter(pred).push(x) } else { s.filter(pred) }),
{
    let a = s.take(p);
    let b = s.skip(p);
    assert forall|j: int| 0 <= j < b.len() implies !pred(#[trigger] b[j]) by {
        assert(b[j] == s[p + j]);
    }
    lemma_filter_none(b, pred);
    assert(s =~= a + b);
    assert(s.insert(p, x) =~= a + seq![x] + b);
    Seq::filter_distributes_over_add(a, b, pred);
    Seq::filter_distributes_over_add(a + seq![x], b, pred);
    Seq::filter_distributes_over_add(a, seq![x], pred);
    lemma_filter_single(x, pred);
    assert(a.filter(pred) + Seq::<AppEntryView>::empty() =~= a.filter(pred));
    if pred(x) {
        assert(a.filter(pred) + seq![x] =~= a.filter(pred).push(x));
    }
}

/// Sorts the applications stably by lower-cased name (`sort_by` on the
/// lower-cased names), by insertion.
pub fn sort_apps(apps: Vec<AppEntry>) -> (r: Vec<AppEntry>)
    ensures
        stable_sort_of(app_views(apps@), app_views(r@)),
        app_views(r@) == sorted_apps(app_views(apps@)),
{
    let ghost input = app_views(apps@);
    let mut out: Vec<AppEntry> = Vec::new();
    let mut keys: Vec<Vec<char>> = Vec::new();
    let n = apps.len();
    let mut i: usize = 0;
    assert(input.take(0) =~= Seq::<AppEntryView>::empty());
    assert(app_views(out@) =~= Seq::<AppEntryView>::empty());
    while i < n
        invariant
            i <= n,
            n == apps@.len(),
            input == app_views(apps@),
            keys@.len() == out@.len(),
            forall|j: int| 0 <= j < keys@.len() ==> #[trigger] keys@[j]@ == app_key(out@[j]@),
            key_sorted(app_views(out@)),
            forall|k: Seq<char>|
                #[trigger] app_views(out@).filter(has_key(k)) == input.take(i as int).filter(has_key(k)),
        decreases n - i,
    {
        let x = apps[i].duplicate();
        let kx = lowercase_chars(x.name.as_str());
        let ghost xv = x@;
        let ghost ov = app_views(out@);
        let mut p = out.len();
        while p > 0 && lex_less(&kx, &keys[p - 1])
            invariant
                p <= out@.len(),
                keys@.len() == out@.len(),
                forall|j: int| 0 <= j < keys@.len() ==> #[trigger] keys@[j]@ == app_key(out@[j]@),
                forall|j: int| p <= j < out@.len() ==> lex_lt(kx@, #[trigger] app_key(out@[j]@)),
            decreases p,
        {
            p = p - 1;
        }
        proof {
            let ov = app_views(out@);
            let nv = ov.insert(p as int, xv);
            // The new list is sorted.
            if p > 0 {
                assert(!lex_lt(kx@, app_key(ov[p - 1])));
            }
            assert forall|a: int, b: int| 0 <= a < b < nv.len() implies !lex_lt(
                #[trigger] app_key(nv[b]),
                #[trigger] app_key(nv[a]),
            ) by {
                if a < p && b < p {
                    assert(nv[a] == ov[a] && nv[b] == ov[b]);
                } else if a < p && b == p {
                    assert(nv[a] == ov[a] && nv[b] == xv);
                    let kp = app_key(ov[p - 1]);
                    if a < p - 1 {
                        assert(!lex_lt(kp, app_key(ov[a])));
                    }
                    let ka = app_key(ov[a]);
                    assert(app_key(xv) == kx@);
                    lemma_lex_total(kp, ka);
                    lemma_lex_transitive(kx@, ka, kp);
                } else if a < p && b > p {
                    assert(nv[a] == ov[a] && nv[b] == ov[b - 1]);
                } else if a == p {
                    assert(nv[a] == xv && nv[b] == ov[b - 1]);
                    assert(lex_lt(kx@, app_key(ov[b - 1])));
                    lemma_lex_asymmetric(kx@, app_key(ov[b - 1]));
                } else {
                    assert(nv[a] == ov[a - 1] && nv[b] == ov[b - 1]);
                }
            }
            // Per key, the new list holds the first i + 1 inputs in order.
            let t = input.take(i as int + 1);
            assert(t =~= input.take(i as int).push(xv));
            assert forall|k: Seq<char>| #[trigger] nv.filter(has_key(k)) == t.filter(has_key(k)) by {
                if k == app_key(xv) {
                    assert forall|j: int| p <= j < ov.len() implies !has_key(k)(#[trigger] ov[j]) by {
                        assert(lex_lt(kx@, app_key(ov[j])));
                        lemma_lex_irreflexive(kx@);
                    }
                    lemma_filter_insert(ov, p as int, xv, has_key(k));
                } else {
                    let pk = has_key(k);
                    assert(ov.insert(p as int, xv) =~= ov.take(p as int) + seq![xv] + ov.skip(p as int));
                    assert(ov =~= ov.take(p as int) + ov.skip(p as int));
                    Seq::filter_distributes_over_add(ov.take(p as int), ov.skip(p as int), pk);
                    Seq::filter_distributes_over_add(ov.take(p as int) + seq![xv], ov.skip(p as int), pk);
                    Seq::filter_distributes_over_add(ov.take(p as int), seq![xv], pk);
                    lemma_filter_single(xv, pk);
                    assert(ov.take(p as int).filter(pk) + Seq::<AppEntryView>::empty() =~= ov.take(p as int).filter(pk));
                }
                reveal_with_fuel(Seq::filter, 1);
                assert(t.drop_last() =~= input.take(i as int));
            }
        }
        let ghost kv = keys@;
        let ghost o0 = out@;
        let ghost kxv = kx@;
        out.insert(p, x);
        keys.insert(p, kx);
        proof {
            assert(app_views(out@) =~= ov.insert(p as int, xv));
            assert forall|j: int| 0 <= j < keys@.len() implies #[trigger] keys@[j]@ == app_key(out@[j]@) by {
                if j < p {
                    assert(keys@[j] == kv[j] && out@[j] == o0[j]);
                } else if j == p {
                    assert(keys@[j]@ == kxv && out@[j]@ == xv);
                } else {
                    assert(keys@[j] == kv[j - 1] && out@[j] == o0[j - 1]);
                }
            }
        }
        i = i + 1;
    }
    assert(input.take(n as int) =~= input);
    proof {
        law_stable_sort_unique(input, app_views(out@), sorted_apps(input));
    }
    out
}

/// A stable sort by key is unique: two sorted lists that hold, key by key,
/// the same applications in the same order, are the same list.
pub proof fn law_stable_sort_unique(input: Seq<AppEntryView>, s1: Seq<AppEntryView>, s2: Seq<AppEntryView>)
    requires
        stable_sort_of(input, s1),
    ensures
        stable_sort_of(input, s2) ==> s1 == s2,
        stable_sort_of(input, sorted_apps(input)),
{
    if stable_sort_of(input, s2) {
        lemma_sorted_unique(s1, s2);
    }
}

proof fn lemma_sorted_unique(s1: Seq<AppEntryView>, s2: Seq<AppEntryView>)
    requires
        key_sorted(s1),
        key_sorted(s2),
        forall|k: Seq<char>| #[trigger] s1.filter(has_key(k)) == s2.filter(has_key(k)),
    ensures
        s1 == s2,
    decreases s1.len() + s2.len(),
{
    if s1.len() == 0 || s2.len() == 0 {
        if s1.len() > 0 {
            lemma_nonempty_filter(s1, s1.len() - 1);
            lemma_filter_none(s2, has_key(app_key(s1.last())));
            assert(s2.filter(has_key(app_key(s1.last()))) == s1.filter(has_key(app_key(s1.last()))));
        } else if s2.len() > 0 {
            lemma_nonempty_filter(s2, s2.len() - 1);
            lemma_filter_none(s1, has_key(app_key(s2.last())));
            assert(s2.filter(has_key(app_key(s2.last()))) == s1.filter(has_key(app_key(s2.last()))));
        } else {
            assert(s1 =~= s2);
        }
        return;
    }
    let x1 = s1.last();
    let x2 = s2.last();
    let k1 = app_key(x1);
    let k2 = app_key(x2);
    // The last keys are the largest on both sides, so they are equal.
    lemma_last_is_max(s1, k2, s2);
    lemma_last_is_max(s2, k1, s1);
    lemma_lex_total(k1, k2);
    assert(k1 == k2);
    let pk = has_key(k1);
    reveal_with_fuel(Seq::filter, 1);
    assert(s1.filter(pk) == s1.drop_last().filter(pk).push(x1));
    assert(s2.filter(pk) == s2.drop_last().filter(pk).push(x2));
    assert(s1.filter(pk) == s2.filter(pk));
    assert(x1 == s1.filter(pk).last());
    assert(x2 == s2.filter(pk).last());
    let d1 = s1.drop_last();
    let d2 = s2.drop_last();
    assert(key_sorted(d1)) by {
        assert forall|i: int, j: int| 0 <= i < j < d1.len() implies !lex_lt(#[trigger] app_key(d1[j]), #[trigger] app_key(d1[i])) by {
            assert(d1[i] == s1[i] && d1[j] == s1[j]);
        }
    }
    assert(key_sorted(d2)) by {
        assert forall|i: int, j: int| 0 <= i < j < d2.len() implies !lex_lt(#[trigger] app_key(d2[j]), #[trigger] app_key(d2[i])) by {
            assert(d2[i] == s2[i] && d2[j] == s2[j]);
        }
    }
    assert forall|k: Seq<char>| #[trigger] d1.filter(has_key(k)) == d2.filter(has_key(k)) by {
        let q = has_key(k);
        assert(s1.filter(q) == s2.filter(q));
        if k == k1 {
            assert(s1.filter(q) == d1.filter(q).push(x1));
            assert(s2.filter(q) == d2.filter(q).push(x2));
            assert(d1.filter(q) =~= s1.filter(q).drop_last());
            assert(d2.filter(q) =~= s2.filter(q).drop_last());
        } else {
            assert(s1.filter(q) == d1.filter(q));
            assert(s2.filter(q) == d2.filter(q));
        }
    }
    lemma_sorted_unique(d1, d2);
    assert(s1 =~= d1.push(x1));
    assert(s2 =~= d2.push(x2));
}

/// A list has an element with the key of its element `i`.
proof fn lemma_nonempty_filter(s: Seq<AppEntryView>, i: int)
    requires
        0 <= i < s.len(),
    ensures
        s.filter(has_key(app_key(s[i]))).len() > 0,
{
    broadcast use vstd::seq_lib::group_filter_ensures;
    assert(s.filter(has_key(app_key(s[i]))).contains(s[i]));
}

/// In a sorted list the last key is at least every key of the list; and a key
/// that occurs in `other`, whose filters equal the list's, occurs in the list.
proof fn lemma_last_is_max(s: Seq<AppEntryView>, k: Seq<char>, other: Seq<AppEntryView>)
    requires
        key_sorted(s),
        s.len() > 0,
        other.len() > 0,
        k == app_key(other.last()),
        forall|kk: Seq<char>| #[trigger] s.filter(has_key(kk)) == other.filter(has_key(kk)),
    ensures
        !lex_lt(app_key(s.last()), k),
{
    broadcast use vstd::seq_lib::group_filter_ensures;
    let pk = has_key(k);
    assert(other.filter(pk).contains(other.last())) by {
        assert(other.last() == other[other.len() - 1]);
    }
    assert(s.filter(pk).contains(other.last()));
    let f = s.filter(pk);
    let idx = choose|m: int| 0 <= m < f.len() && f[m] == other.last();
    assert(pk(f[idx]));
    assert(f.len() <= s.len()) by {
        s.lemma_filter_len(pk);
    }
    lemma_filter_member(s, pk, f[idx]);
    let j = choose|j: int| 0 <= j < s.len() && s[j] == f[idx];
    if j < s.len() - 1 {
        assert(!lex_lt(app_key(s[s.len() - 1]), app_key(s[j])));
    } else {
        lemma_lex_irreflexive(k);
    }
}

/// What a filter keeps comes from the list.
proof fn lemma_filter_member(s: Seq<AppEntryView>, pred: spec_fn(AppEntryView) -> bool, x: AppEntryView)
    requires
        s.filter(pred).contains(x),
    ensures
        exists|j: int| 0 <= j < s.len() && s[j] == x,
    decreases s.len(),
{
    reveal_with_fuel(Seq::filter, 1);
    if s.len() > 0 {
        let d = s.drop_last();
        if d.filter(pred).contains(x) {
            lemma_filter_member(d, pred, x);
            let j = choose|j: int| 0 <= j < d.len() && d[j] == x;
            assert(s[j] == x);
        } else {
            assert(s[s.len() - 1] == x);
        }
    }
}

// ---------------------------------------------------------------------------
// Dropping repeated names
// ---------------------------------------------------------------------------

/// `Vec::dedup_by` on names equal ignoring ASCII case: an entry is dropped
/// when its name equals, ignoring ASCII case, that of the last entry kept.
pub open spec fn dedup_names(s: Seq<AppEntryView>) -> Seq<AppEntryView>
    decreases s.len(),
{
    if s.len() == 0 {
        seq![]
    } else {
        let d = dedup_names(s.drop_last());
        if d.len() > 0 && eq_ignore_ascii_case_spec(s.last().name, d.last().name) {
            d
        } else {
            d.push(s.last())
        }
    }
}

/// Drops each entry whose name equals, ignoring ASCII case, that of the last
/// entry kept.
pub fn dedup_apps(apps: Vec<AppEntry>) -> (r: Vec<AppEntry>)
    ensures
        app_views(r@) == dedup_names(app_views(apps@)),
{
    let ghost all = app_views(apps@);
    let mut out: Vec<AppEntry> = Vec::new();
    let mut last_name: Vec<char> = Vec::new();
    let n = apps.len();
    let mut i: usize = 0;
    assert(all.take(0) =~= seq![]);
    assert(app_views(out@) =~= seq![]);
    while i < n
        invariant
            i <= n,
            n == apps@.len(),
            all == app_views(apps@),
            app_views(out@) == dedup_names(all.take(i as int)),
            out@.len() > 0 ==> last_name@ == out@.last().name@,
        decreases n - i,
    {
        let a = &apps[i];
        let name = crate::text::chars_of(a.name.as_str());
        proof {
            let t = all.take(i as int + 1);
            assert(t.drop_last() =~= all.take(i as int));
            assert(t.last() == a@);
        }
        let dup = out.len() > 0 && eq_ignore_ascii_case(&name, &last_name);
        if !dup {
            let ghost before = out@;
            out.push(a.duplicate());
            assert(app_views(out@) =~= app_views(before).push(a@));
            last_name = name;
        } else {
            assert(app_views(out@).last() == out@.last()@);
        }
        i = i + 1;
    }
    assert(all.take(n as int) =~= all);
    out
}

/// The order in which the shortcut apps are listed: sorted stably by
/// lower-cased name, then with names that repeat (ignoring ASCII case) right
/// after each other listed once.
pub fn arrange_apps(apps: Vec<AppEntry>) -> (r: Vec<AppEntry>)
    ensures
        app_views(r@) == dedup_names(sorted_apps(app_views(apps@))),
{
    let sorted = sort_apps(apps);
    dedup_apps(sorted)
}

/// After dropping repeats, no entry's name equals the next one's, ignoring ASCII case.
pub proof fn law_dedup_no_adjacent_repeats(s: Seq<AppEntryView>)
    ensures
        forall|i: int|
            0 <= i < dedup_names(s).len() - 1 ==> !eq_ignore_ascii_case_spec(
                #[trigger] dedup_names(s)[i + 1].name,
                dedup_names(s)[i].name,
            ),
    decreases s.len(),
{
    if s.len() > 0 {
        let d = dedup_names(s.drop_last());
        law_dedup_no_adjacent_repeats(s.drop_last());
        let r = dedup_names(s);
        assert forall|i: int| 0 <= i < r.len() - 1 implies !eq_ignore_ascii_case_spec(
            #[trigger] r[i + 1].name,
            r[i].name,
        ) by {
            if i + 1 < d.len() {
                assert(r[i] == d[i] && r[i + 1] == d[i + 1]);
            } else {
                assert(r == d.push(s.last()));
                assert(r[i] == d.last());
            }
        }
    }
}

/// Dropping repeats loses no name: every entry of the input has an entry in
/// the result whose name equals its own, ignoring ASCII case; and every entry
/// of the result is an entry of the input.
pub proof fn law_dedup_keeps_every_name(s: Seq<AppEntryView>)
    ensures
        forall|i: int|
            0 <= i < s.len() ==> exists|j: int|
                0 <= j < dedup_names(s).len() && eq_ignore_ascii_case_spec((#[trigger] s[i]).name, #[trigger] dedup_names(s)[j].name),
        forall|j: int| 0 <= j < dedup_names(s).len() ==> s.contains(#[trigger] dedup_names(s)[j]),
    decreases s.len(),
{
    if s.len() > 0 {
        let p = s.drop_last();
        let d = dedup_names(p);
        law_dedup_keeps_every_name(p);
        let r = dedup_names(s);
        assert(d.len() <= r.len());
        assert forall|j: int| 0 <= j < d.len() implies r[j] == d[j] by {}
        assert forall|i: int| 0 <= i < s.len() implies exists|j: int|
            0 <= j < r.len() && eq_ignore_ascii_case_spec((#[trigger] s[i]).name, #[trigger] r[j].name) by {
            if i < p.len() {
                assert(s[i] == p[i]);
                let j = choose|j: int| 0 <= j < d.len() && eq_ignore_ascii_case_spec(p[i].name, #[trigger] d[j].name);
                assert(r[j] == d[j]);
            } else if r.len() == d.len() {
                assert(r[d.len() - 1] == d.last());
            } else {
                assert(r[r.len() - 1] == s.last());
                assert(eq_ignore_ascii_case_spec(s[i].name, r[r.len() - 1].name));
            }
        }
        assert forall|j: int| 0 <= j < r.len() implies s.contains(#[trigger] r[j]) by {
            if j < d.len() {
                assert(r[j] == d[j]);
                let k = choose|k: int| 0 <= k < p.len() && p[k] == d[j];
                assert(s[k] == p[k]);
            } else {
                assert(r[j] == s[s.len() - 1]);
            }
        }
    }
}

/// The number of runs of names equal ignoring ASCII case: one for the first
/// entry, and one more for each entry whose name differs, ignoring ASCII case,
/// from that of the entry right before it.
pub open spec fn name_runs(s: Seq<AppEntryView>) -> nat
    decreases s.len(),
{
    if s.len() == 0 {
        0
    } else if s.len() == 1 || !eq_ignore_ascii_case_spec(s.last().name, s[s.len() - 2].name) {
        name_runs(s.drop_last()) + 1
    } else {
        name_runs(s.drop_last())
    }
}

/// Equality ignoring ASCII case is symmetric and transitive.
proof fn lemma_eq_ignore_case_equiv(a: Seq<char>, b: Seq<char>, c: Seq<char>)
    ensures
        eq_ignore_ascii_case_spec(a, b) ==> eq_ignore_ascii_case_spec(b, a),
        eq_ignore_ascii_case_spec(a, b) && eq_ignore_ascii_case_spec(b, c) ==> eq_ignore_ascii_case_spec(a, c),
{
    if eq_ignore_ascii_case_spec(a, b) {
        assert forall|k: int| 0 <= k < b.len() implies ascii_fold(#[trigger] b[k]) == ascii_fold(a[k]) by {
            assert(ascii_fold(a[k]) == ascii_fold(b[k]));
        }
        if eq_ignore_ascii_case_spec(b, c) {
            assert forall|k: int| 0 <= k < a.len() implies ascii_fold(#[trigger] a[k]) == ascii_fold(c[k]) by {
                assert(ascii_fold(a[k]) == ascii_fold(b[k]));
                assert(ascii_fold(b[k]) == ascii_fold(c[k]));
            }
        }
    }
}

/// Dropping repeats keeps one entry per run: the result has as many entries
/// as the input has runs of names equal ignoring ASCII case, and the last
/// entry kept has the name of the last input entry, ignoring ASCII case.
pub proof fn law_dedup_one_per_run(s: Seq<AppEntryView>)
    ensures
        dedup_names(s).len() == name_runs(s),
        s.len() > 0 ==> dedup_names(s).len() > 0 && eq_ignore_ascii_case_spec(dedup_names(s).last().name, s.last().name),
    decreases s.len(),
{
    if s.len() > 0 {
        let p = s.drop_last();
        let d = dedup_names(p);
        law_dedup_one_per_run(p);
        let x = s.last();
        if p.len() == 0 {
            assert(d.len() == 0);
            assert(dedup_names(s) == d.push(x));
            assert(eq_ignore_ascii_case_spec(x.name, x.name));
        } else {
            assert(p.last() == s[s.len() - 2]);
            lemma_eq_ignore_case_equiv(x.name, d.last().name, p.last().name);
            lemma_eq_ignore_case_equiv(x.name, p.last().name, d.last().name);
            lemma_eq_ignore_case_equiv(d.last().name, p.last().name, x.name);
            lemma_eq_ignore_case_equiv(p.last().name, x.name, x.name);
            if eq_ignore_ascii_case_spec(x.name, d.last().name) {
                lemma_eq_ignore_case_equiv(d.last().name, x.name, x.name);
                lemma_eq_ignore_case_equiv(x.name, d.last().name, d.last().name);
            } else {
                assert(dedup_names(s) == d.push(x));
                assert(eq_ignore_ascii_case_spec(x.name, x.name));
            }
        }
    }
}

/// The file names and paths found under the Start Menu, as characters.
pub open spec fn file_views(files: Seq<(String, String)>) -> Seq<(Seq<char>, Seq<char>)> {
    files.map_values(|f: (String, String)| (f.0@, f.1@))
}

/// The entries for the shortcut files among the files found, in the order found.
pub open spec fn shortcuts_found(files: Seq<(Seq<char>, Seq<char>)>) -> Seq<AppEntryView>
    decreases files.len(),
{
    if files.len() == 0 {
        seq![]
    } else {
        let prev = shortcuts_found(files.drop_last());
        match shortcut_entry(files.last().0, files.last().1) {
            Some(e) => prev.push(e),
            None => prev,
        }
    }
}

/// The shortcut apps from the files found under the Start Menu (each a file
/// name and its full path): the `.lnk` files as entries, then arranged as
/// `arrange_apps` does.
pub fn shortcut_entries(files: Vec<(String, String)>) -> (r: Vec<AppEntry>)
    ensures
        app_views(r@) == dedup_names(sorted_apps(shortcuts_found(file_views(files@)))),
{
    let ghost fv = file_views(files@);
    let mut found: Vec<AppEntry> = Vec::new();
    let n = files.len();
    let mut i: usize = 0;
    assert(fv.take(0) =~= seq![]);
    assert(app_views(found@) =~= seq![]);
    while i < n
        invariant
            i <= n,
            n == files@.len(),
            fv == file_views(files@),
            app_views(found@) == shortcuts_found(fv.take(i as int)),
        decreases n - i,
    {
        let (name, path) = (&files[i].0, &files[i].1);
        proof {
            let t = fv.take(i as int + 1);
            assert(t.drop_last() =~= fv.take(i as int));
            assert(t.last() == (name@, path@));
        }
        match app_entry_for_file(name.as_str(), path.clone()) {
            Some(e) => {
                let ghost before = found@;
                found.push(e);
                assert(app_views(found@) =~= app_views(before).push(e@));
            },
            None => {},
        }
        i = i + 1;
    }
    assert(fv.take(n as int) =~= fv);
    arrange_apps(found)
}

} // verus!
