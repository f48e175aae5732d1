//! Offers to search the web for the query with each search engine.
use vstd::prelude::*;
use vstd::utf8::encode_utf8;
use crate::provider::{Action, ActionView, Candidate, CandidateView, Provider, candidate_views};
use crate::text::{chars_of, concat2, string_from_chars, trim, trim_spec};

verus! {

/// A byte that URL encoding leaves as it is: an ASCII letter or digit, `-`, `.`, `_` or `~`.
pub open spec fn unreserved(b: u8) -> bool {
    ||| 48 <= b <= 57
    ||| 65 <= b <= 90
    ||| 97 <= b <= 122
    ||| b == 45
    ||| b == 46
    ||| b == 95
    ||| b == 126
}

/// The upper-case hexadecimal digit for `d` (`d < 16`).
pub open spec fn hex_upper(d: u8) -> char {
    if d < 10 {
        (48 + d) as char
    } else {
        (55 + d) as char
    }
}

/// Percent-encoding of bytes: each unreserved byte stays as its character,
/// every other byte becomes `%` and two upper-case hexadecimal digits.
pub open spec fn percent_encode(bytes: Seq<u8>) -> Seq<char>
    decreases bytes.len(),
{
    if bytes.len() == 0 {
        seq![]
    } else {
        let b = bytes[0];
        (if unreserved(b) {
            seq![b as char]
        } else {
            seq!['%', hex_upper(b / 16), hex_upper(b % 16)]
        }) + percent_encode(bytes.drop_first())
    }
}

/// `urlencoding::encode`: percent-encodes the UTF-8 bytes of `s`, leaving
/// ASCII letters, digits and `-._~` as they are; the contract states that
/// rule exactly.
#[verifier::external_body]
fn url_encode(s: &str) -> (r: String)
    ensures
        r@ == percent_encode(encode_utf8(s@)),
{
    urlencoding::encode(s).into_owned()
}

/// `s` with every `{}` replaced by `rep`, scanning from the left
/// (`str::replace` with the pattern `"{}"`).
pub open spec fn replace_braces(s: Seq<char>, rep: Seq<char>) -> Seq<char>
    decreases s.len(),
{
    if s.len() == 0 {
        seq![]
    } else if s.len() >= 2 && s[0] == '{' && s[1] == '}' {
        rep + replace_braces(s.skip(2), rep)
    } else {
        seq![s[0]] + replace_braces(s.skip(1), rep)
    }
}

/// Replaces each `{}` in `template` by `rep`.
pub fn fill_template(template: &str, rep: &Vec<char>) -> (r: String)
    ensures
        r@ == replace_braces(template@, rep@),
{
    let s = chars_of(template);
    let n = s.len();
    let mut out: Vec<char> = Vec::new();
    let mut i: usize = 0;
    assert(s@.skip(0) =~= s@);
    while i < n
        invariant
            i <= n,
            n == s@.len(),
            s@ == template@,
            out@ + replace_braces(s@.skip(i as int), rep@) == replace_braces(s@, rep@),
        decreases n - i,
    {
        let ghost rest = s@.skip(i as int);
        let ghost before = out@;
        if i + 1 < n && s[i] == '{' && s[i + 1] == '}' {
            assert(rest[0] == s@[i as int] && rest[1] == s@[i + 1]);
            assert(rest.skip(2) =~= s@.skip(i + 2));
            let mut k: usize = 0;
            while k < rep.len()
                invariant
                    k <= rep.len(),
                    out@ == before + rep@.take(k as int),
                decreases rep.len() - k,
            {
                out.push(rep[k]);
                k = k + 1;
                assert(out@ =~= before + rep@.take(k as int));
            }
            assert(rep@.take(rep.len() as int) =~= rep@);
            assert(out@ + replace_braces(s@.skip(i + 2), rep@) =~= before + (rep@ + replace_braces(rest.skip(2), rep@)));
            i = i + 2;
        } else {
            assert(rest[0] == s@[i as int]);
            assert(rest.skip(1) =~= s@.skip(i + 1));
            out.push(s[i]);
            assert(out@ + replace_braces(s@.skip(i + 1), rep@) =~= before + (seq![rest[0]] + replace_braces(rest.skip(1), rep@)));
            i = i + 1;
        }
    }
    assert(s@.skip(n as int) =~= seq![]);
    assert(out@ + seq![] =~= out@);
    string_from_chars(out.as_slice())
}

/// The candidate that searches one engine for `q`, whose URL encoding is `enc`.
pub open spec fn engine_candidate(name: Seq<char>, template: Seq<char>, q: Seq<char>, enc: Seq<char>) -> CandidateView {
    CandidateView {
        label: name + " で「"@ + q + "」を検索"@,
        source: "Web Search"@,
        action: ActionView::Open(replace_braces(template, enc)),
    }
}

/// The candidates for a query: none for a blank one, else a Google search
/// and a DuckDuckGo search for the trimmed query.
pub open spec fn websearch_offered(query: Seq<char>) -> Seq<CandidateView> {
    let q = trim_spec(query);
    let enc = percent_encode(encode_utf8(q));
    if q.len() == 0 {
        seq![]
    } else {
        seq![
            engine_candidate("Google"@, "https://www.google.com/search?q={}"@, q, enc),
            engine_candidate("DuckDuckGo"@, "https://duckduckgo.com/?q={}"@, q, enc),
        ]
    }
}

fn engine(name: &'static str, template: &'static str, q: &str, enc: &Vec<char>) -> (c: Candidate)
    ensures
        c@ == engine_candidate(name@, template@, q@, enc@),
{
    let mut label = concat2(name, " で「");
    label.append(q);
    label.append("」を検索");
    Candidate { label, source: "Web Search", action: Action::Open(fill_template(template, enc)) }
}

/// Offers a web search for any non-blank query.
pub struct WebSearchProvider;

impl Provider for WebSearchProvider {
    open spec fn provider_name(&self) -> Seq<char> {
        "Web Search"@
    }

    open spec fn offered(&self, query: Seq<char>) -> Seq<CandidateView> {
        websearch_offered(query)
    }

    fn name(&self) -> (r: &'static str) {
        "Web Search"
    }

    fn candidates(&self, query: &str) -> (r: Vec<Candidate>) {
        let q = trim(query);
        if q.as_str().is_empty() {
            assert(candidate_views(Seq::<Candidate>::empty()) =~= seq![]);
            return Vec::new();
        }
        let encoded = url_encode(q.as_str());
        let enc = chars_of(encoded.as_str());
        let mut out: Vec<Candidate> = Vec::new();
        out.push(engine("Google", "https://www.google.com/search?q={}", q.as_str(), &enc));
        out.push(engine("DuckDuckGo", "https://duckduckgo.com/?q={}", q.as_str(), &enc));
        assert(candidate_views(out@) =~= websearch_offered(query@));
        out
    }
}

} // verus!
