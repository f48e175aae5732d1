//! Asking a language model: the candidate that offers it, and the decisions
//! of a request (whether to search the web first, what prompt to send, where
//! to send it, how the streamed answer is framed, assembled and ended).
use vstd::prelude::*;
use crate::provider::{Action, ActionView, Candidate, CandidateView, Provider, candidate_views};
use crate::text::{chars_of, concat3, decimal, owned, push_decimal, string_from_chars, trim, trim_spec};

verus! {

// ---------------------------------------------------------------------------
// The candidate
// ---------------------------------------------------------------------------

/// The candidates for a query: none for a blank one, else one that asks the
/// model the trimmed query.
pub open spec fn llm_offered(query: Seq<char>) -> Seq<CandidateView> {
    let q = trim_spec(query);
    if q.len() == 0 {
        seq![]
    } else {
        seq![CandidateView { label: "AI に「"@ + q + "」を聞く"@, source: "AI"@, action: ActionView::AskLlm(q) }]
    }
}

/// Offers to ask the model about any non-blank query.
pub struct LlmProvider;

impl Provider for LlmProvider {
    open spec fn provider_name(&self) -> Seq<char> {
        "AI"@
    }

    open spec fn offered(&self, query: Seq<char>) -> Seq<CandidateView> {
        llm_offered(query)
    }

    fn name(&self) -> (r: &'static str) {
        "AI"
    }

    fn candidates(&self, query: &str) -> (r: Vec<Candidate>) {
        let q = trim(query);
        if q.as_str().is_empty() {
            assert(candidate_views(Seq::<Candidate>::empty()) =~= seq![]);
            return Vec::new();
        }
        let mut out: Vec<Candidate> = Vec::new();
        out.push(Candidate {
            label: concat3("AI に「", q.as_str(), "」を聞く"),
            source: "AI",
            action: Action::AskLlm(q.clone()),
        });
        assert(candidate_views(out@) =~= llm_offered(query@));
        out
    }
}

// ---------------------------------------------------------------------------
// Web search results
// ---------------------------------------------------------------------------

/// One web search result.
#[derive(Debug, Clone)]
pub struct SearchResult {
    pub title: String,
    pub url: String,
    pub content: String,
}

/// The value of a [`SearchResult`].
pub struct SearchResultView {
    pub title: Seq<char>,
    pub url: Seq<char>,
    pub content: Seq<char>,
}

impl View for SearchResult {
    type V = SearchResultView;

    open spec fn view(&self) -> SearchResultView {
        SearchResultView { title: self.title@, url: self.url@, content: self.content@ }
    }
}

/// The values of a list of results.
pub open spec fn result_views(v: Seq<SearchResult>) -> Seq<SearchResultView> {
    v.map_values(|r: SearchResult| r@)
}

impl SearchResult {
    /// A copy of the result.
    pub fn duplicate(&self) -> (r: SearchResult)
        ensures
            r@ == self@,
    {
        SearchResult { title: self.title.clone(), url: self.url.clone(), content: self.content.clone() }
    }
}

/// A copy of a list of results.
pub fn duplicate_results(v: &Vec<SearchResult>) -> (r: Vec<SearchResult>)
    ensures
        result_views(r@) == result_views(v@),
{
    let mut r: Vec<SearchResult> = Vec::new();
    let n = v.len();
    let mut i: usize = 0;
    while i < n
        invariant
            i <= n,
            n == v@.len(),
            r@.len() == i,
            forall|j: int| 0 <= j < i ==> #[trigger] r@[j]@ == v@[j]@,
        decreases n - i,
    {
        r.push(v[i].duplicate());
        i = i + 1;
    }
    assert(result_views(r@) =~= result_views(v@));
    r
}

/// Whether a request searches the web first: when the API key is not blank.
pub fn wants_web_search(api_key: &str) -> (r: bool)
    ensures
        r == (trim_spec(api_key@).len() > 0),
{
    !trim(api_key).as_str().is_empty()
}

// ---------------------------------------------------------------------------
// The prompt
// ---------------------------------------------------------------------------

/// `items` joined with `sep` between each two.
pub open spec fn join(items: Seq<Seq<char>>, sep: Seq<char>) -> Seq<char>
    decreases items.len(),
{
    if items.len() == 0 {
        seq![]
    } else if items.len() == 1 {
        items[0]
    } else {
        join(items.drop_last(), sep) + sep + items.last()
    }
}

/// How the `i`-th result (counting from 0) appears in the prompt.
pub open spec fn result_entry(i: int, r: SearchResultView) -> Seq<char> {
    decimal((i + 1) as nat) + ". "@ + r.title + "\n"@ + r.content + "\n出典: "@ + r.url
}

/// The text before the results in a grounded prompt.
pub open spec fn grounded_header() -> Seq<char> {
    "以下はWeb検索で見つかった情報です。これを参考にして、質問に日本語で答えてください。\n検索結果に無い情報を推測で補わないでください。\n\n[検索結果]\n"@
}

/// The prompt that asks `prompt` on the ground of `results`: a fixed
/// instruction, the numbered results separated by blank lines, then the question.
pub open spec fn grounded_prompt(prompt: Seq<char>, results: Seq<SearchResultView>) -> Seq<char> {
    let entries = Seq::new(results.len(), |i: int| result_entry(i, results[i]));
    grounded_header() + join(entries, "\n\n"@) + "\n\n[質問]\n"@ + prompt
}

fn entry_text(i: usize, r: &SearchResult) -> (s: Vec<char>)
    requires
        i < usize::MAX,
    ensures
        s@ == result_entry(i as int, r@),
{
    let mut s: Vec<char> = Vec::new();
    push_decimal(&mut s, i + 1);
    let mut t = string_from_chars(s.as_slice());
    t.append(". ");
    t.append(r.title.as_str());
    t.append("\n");
    t.append(r.content.as_str());
    t.append("\n出典: ");
    t.append(r.url.as_str());
    chars_of(t.as_str())
}

/// Builds the prompt that asks `prompt` on the ground of the web search results.
pub fn build_grounded_prompt(prompt: &str, results: &[SearchResult]) -> (r: String)
    ensures
        r@ == grounded_prompt(prompt@, result_views(results@)),
{
    let ghost rv = result_views(results@);
    let ghost entries = Seq::new(rv.len(), |i: int| result_entry(i, rv[i]));
    let mut context = String::new();
    let n = results.len();
    let mut i: usize = 0;
    assert(entries.take(0) =~= seq![]);
    while i < n
        invariant
            i <= n,
            n == results@.len(),
            rv == result_views(results@),
            entries == Seq::new(rv.len(), |i: int| result_entry(i, rv[i])),
            context@ == join(entries.take(i as int), "\n\n"@),
        decreases n - i,
    {
        let e = entry_text(i, &results[i]);
        let es = string_from_chars(e.as_slice());
        let ghost t = entries.take(i as int + 1);
        assert(t.drop_last() =~= entries.take(i as int));
        assert(t.last() == e@);
        if i > 0 {
            context.append("\n\n");
        } else {
            assert(t =~= seq![e@]);
        }
        context.append(es.as_str());
        i = i + 1;
    }
    assert(entries.take(n as int) =~= entries);
    let mut r = owned(
        "以下はWeb検索で見つかった情報です。これを参考にして、質問に日本語で答えてください。\n検索結果に無い情報を推測で補わないでください。\n\n[検索結果]\n",
    );
    r.append(context.as_str());
    r.append("\n\n[質問]\n");
    r.append(prompt);
    r
}

/// The prompt sent and the results cited, given what the web search gave
/// (`None` when there was no search or it failed): a grounded prompt and the
/// results when they are not empty, else the plain prompt and no results.
pub fn plan_prompt(prompt: &str, search: Option<Vec<SearchResult>>) -> (r: (String, Vec<SearchResult>))
    ensures
        ({
            match search {
                Some(results) if results@.len() > 0 => {
                    &&& r.0@ == grounded_prompt(prompt@, result_views(results@))
                    &&& result_views(r.1@) == result_views(results@)
                },
                _ => r.0@ == prompt@ && r.1@.len() == 0,
            }
        }),
{
    match search {
        Some(results) => {
            if results.len() > 0 {
                let p = build_grounded_prompt(prompt, results.as_slice());
                (p, results)
            } else {
                (owned(prompt), Vec::new())
            }
        },
        None => (owned(prompt), Vec::new()),
    }
}

// ---------------------------------------------------------------------------
// The endpoint
// ---------------------------------------------------------------------------

/// `s` without its trailing `/` characters (`str::trim_end_matches('/')`).
pub open spec fn strip_slashes(s: Seq<char>) -> Seq<char>
    decreases s.len(),
{
    if s.len() > 0 && s.last() == '/' {
        strip_slashes(s.drop_last())
    } else {
        s
    }
}

/// The URL of the model server's generate endpoint for `host`.
pub fn generate_url(host: &str) -> (r: String)
    ensures
        r@ == strip_slashes(host@) + "/api/generate"@,
{
    let v = chars_of(host);
    let mut j = v.len();
    assert(v@.take(j as int) =~= v@);
    while j > 0 && v[j - 1] == '/'
        invariant
            j <= v.len(),
            strip_slashes(v@) == strip_slashes(v@.take(j as int)),
        decreases j,
    {
        proof {
            let t = v@.take(j as int);
            assert(t.drop_last() =~= v@.take(j - 1));
        }
        j = j - 1;
    }
    proof {
        let t = v@.take(j as int);
        if j > 0 {
            assert(t.last() == v@[j - 1]);
        }
    }
    let mut kept = v;
    kept.truncate(j);
    assert(kept@ =~= v@.take(j as int));
    let mut r = string_from_chars(kept.as_slice());
    r.append("/api/generate");
    r
}

// ---------------------------------------------------------------------------
// The streamed answer
// ---------------------------------------------------------------------------

/// The index of the first newline byte in `s`, if any.
pub open spec fn first_newline(s: Seq<u8>) -> Option<int> {
    if exists|i: int| 0 <= i < s.len() && s[i] == 10u8 {
        Some(choose|i: int| 0 <= i < s.len() && s[i] == 10u8 && forall|j: int| 0 <= j < i ==> s[j] != 10u8)
    } else {
        None
    }
}

/// What taking the next line from a buffer gives: the first non-empty
/// complete line (without its newline) and the bytes after it; empty lines
/// before it are dropped. With no non-empty complete line, nothing, and the
/// buffer without the complete empty lines at its front.
pub open spec fn take_line(s: Seq<u8>) -> (Option<Seq<u8>>, Seq<u8>)
    decreases s.len(),
{
    if s.len() > 0 && s[0] == 10u8 {
        take_line(s.drop_first())
    } else {
        match first_newline(s) {
            Some(p) => (Some(s.take(p)), s.skip(p + 1)),
            None => (None, s),
        }
    }
}

/// Bytes received but not yet split into lines.
pub struct LineBuffer {
    buf: Vec<u8>,
}

impl View for LineBuffer {
    type V = Seq<u8>;

    closed spec fn view(&self) -> Seq<u8> {
        self.buf@
    }
}

impl LineBuffer {
    /// An empty buffer.
    pub fn new() -> (r: LineBuffer)
        ensures
            r@ == Seq::<u8>::empty(),
    {
        LineBuffer { buf: Vec::new() }
    }

    /// Appends received bytes.
    pub fn extend(&mut self, chunk: &[u8])
        ensures
            final(self)@ == old(self)@ + chunk@,
    {
        let n = chunk.len();
        let mut i: usize = 0;
        let ghost start = self.buf@;
        while i < n
            invariant
                i <= n,
                n == chunk@.len(),
                self.buf@ == start + chunk@.take(i as int),
            decreases n - i,
        {
            self.buf.push(chunk[i]);
            i = i + 1;
            assert(self.buf@ =~= start + chunk@.take(i as int));
        }
        assert(chunk@.take(n as int) =~= chunk@);
    }

    /// Takes the next non-empty complete line, without its newline.
    pub fn next_line(&mut self) -> (r: Option<Vec<u8>>)
        ensures
            ({
                let (line, rest) = take_line(old(self)@);
                &&& final(self)@ == rest
                &&& match r {
                    Some(v) => line == Some(v@),
                    None => line is None,
                }
            }),
    {
        let ghost s0 = self.buf@;
        // Drop the empty lines at the front.
        let mut start: usize = 0;
        let n = self.buf.len();
        assert(s0.skip(0) =~= s0);
        while start < n && self.buf[start] == 10u8
            invariant
                start <= n,
                n == self.buf@.len(),
                s0 == self.buf@,
                take_line(s0) == take_line(s0.skip(start as int)),
            decreases n - start,
        {
            proof {
                let t = s0.skip(start as int);
                assert(t[0] == 10u8);
                assert(t.drop_first() =~= s0.skip(start + 1));
            }
            start = start + 1;
        }
        let ghost t = s0.skip(start as int);
        assert(t.len() == 0 || t[0] != 10u8) by {
            if t.len() > 0 {
                assert(t[0] == s0[start as int]);
            }
        }
        // Find the newline that ends the next line.
        let mut p = start;
        while p < n && self.buf[p] != 10u8
            invariant
                start <= p <= n,
                n == self.buf@.len(),
                s0 == self.buf@,
                t == s0.skip(start as int),
                forall|j: int| 0 <= j < p - start ==> t[j] != 10u8,
            decreases n - p,
        {
            assert(t[p - start] == s0[p as int]);
            p = p + 1;
        }
        if p == n {
            assert(!(exists|i: int| 0 <= i < t.len() && t[i] == 10u8));
            assert(first_newline(t) is None);
            let mut rest: Vec<u8> = Vec::new();
            let mut k = start;
            while k < n
                invariant
                    start <= k <= n,
                    n == self.buf@.len(),
                    s0 == self.buf@,
                    rest@ == s0.subrange(start as int, k as int),
                decreases n - k,
            {
                rest.push(self.buf[k]);
                k = k + 1;
                assert(rest@ =~= s0.subrange(start as int, k as int));
            }
            assert(rest@ =~= t);
            self.buf = rest;
            return None;
        }
        let ghost q = p - start;
        assert(t[q] == 10u8);
        assert(first_newline(t) == Some(q)) by {
            let c = choose|i: int| 0 <= i < t.len() && t[i] == 10u8 && forall|j: int| 0 <= j < i ==> t[j] != 10u8;
            assert(0 <= q < t.len() && t[q] == 10u8 && forall|j: int| 0 <= j < q ==> t[j] != 10u8);
            if c < q {
                assert(t[c] != 10u8);
            } else if c > q {
                assert(t[q] != 10u8);
            }
        }
        let mut line: Vec<u8> = Vec::new();
        let mut k = start;
        while k < p
            invariant
                start <= k <= p < n,
                n == self.buf@.len(),
                s0 == self.buf@,
                line@ == s0.subrange(start as int, k as int),
            decreases p - k,
        {
            line.push(self.buf[k]);
            k = k + 1;
            assert(line@ =~= s0.subrange(start as int, k as int));
        }
        let mut rest: Vec<u8> = Vec::new();
        let mut k = p + 1;
        while k < n
            invariant
                p < k <= n,
                n == self.buf@.len(),
                s0 == self.buf@,
                rest@ == s0.subrange(p + 1, k as int),
            decreases n - k,
        {
            rest.push(self.buf[k]);
            k = k + 1;
            assert(rest@ =~= s0.subrange(p + 1, k as int));
        }
        assert(line@ =~= t.take(q));
        assert(rest@ =~= t.skip(q + 1));
        self.buf = rest;
        Some(line)
    }
}

/// The sources appended to an answer: nothing without sources, else a
/// heading and one entry per source (title, then the URL indented).
pub open spec fn sources_text(sources: Seq<SearchResultView>) -> Seq<char> {
    if sources.len() == 0 {
        seq![]
    } else {
        "\n\n参照元:\n"@ + source_lines(sources)
    }
}

/// One entry per source, in order.
pub open spec fn source_lines(sources: Seq<SearchResultView>) -> Seq<char>
    decreases sources.len(),
{
    if sources.len() == 0 {
        seq![]
    } else {
        source_lines(sources.drop_last()) + "- "@ + sources.last().title + "\n  "@ + sources.last().url + "\n"@
    }
}

/// Appends the sources to the answer (nothing when there are none).
pub fn append_sources(answer: &mut String, sources: &[SearchResult])
    ensures
        final(answer)@ == old(answer)@ + sources_text(result_views(sources@)),
{
    if sources.len() == 0 {
        assert(old(answer)@ + seq![] =~= old(answer)@);
        return;
    }
    let ghost sv = result_views(sources@);
    let ghost a0 = answer@;
    answer.append("\n\n参照元:\n");
    let n = sources.len();
    let mut i: usize = 0;
    assert(sv.take(0) =~= seq![]);
    assert(answer@ =~= a0 + "\n\n参照元:\n"@ + source_lines(sv.take(0)));
    while i < n
        invariant
            i <= n,
            n == sources@.len(),
            sv == result_views(sources@),
            answer@ == a0 + "\n\n参照元:\n"@ + source_lines(sv.take(i as int)),
        decreases n - i,
    {
        let s = &sources[i];
        let ghost t = sv.take(i as int + 1);
        assert(t.drop_last() =~= sv.take(i as int));
        assert(t.last() == s@);
        answer.append("- ");
        answer.append(s.title.as_str());
        answer.append("\n  ");
        answer.append(s.url.as_str());
        answer.append("\n");
        i = i + 1;
    }
    assert(sv.take(n as int) =~= sv);
}

/// What the client does after one chunk of the streamed answer.
pub enum ChunkStep {
    /// The server reported an error; the request ends with this message.
    Failed(String),
    /// More is to come; `grew` says whether the answer grew (and is shown again).
    Continue { grew: bool },
    /// The server is done: `grew` says whether this last chunk still added to
    /// the answer; `finish` then appends the sources.
    Finished { grew: bool },
}

/// The answer assembled so far, and the sources it cites.
pub struct AnswerSession {
    answer: String,
    sources: Vec<SearchResult>,
}

impl AnswerSession {
    /// A session with an empty answer, citing `sources` at the end.
    pub fn new(sources: Vec<SearchResult>) -> (r: AnswerSession)
        ensures
            r.answer()@ == Seq::<char>::empty(),
            result_views(r.sources()@) == result_views(sources@),
    {
        AnswerSession { answer: String::new(), sources }
    }

    /// The answer so far.
    pub closed spec fn answer(&self) -> String {
        self.answer
    }

    /// The sources cited.
    pub closed spec fn sources(&self) -> Vec<SearchResult> {
        self.sources
    }

    /// The answer so far.
    pub fn text(&self) -> (r: &String)
        ensures
            r@ == self.answer()@,
    {
        &self.answer
    }

    /// Handles one parsed chunk: an error ends the request with a message;
    /// else a non-empty response is appended, and a chunk marked done ends
    /// the stream.
    pub fn on_chunk(&mut self, response: &str, done: bool, error: Option<String>) -> (r: ChunkStep)
        ensures
            result_views(final(self).sources()@) == result_views(old(self).sources()@),
            match error {
                Some(m) => {
                    &&& r matches ChunkStep::Failed(msg) && msg@ == "Ollama がエラーを返しました: "@ + m@
                    &&& final(self).answer()@ == old(self).answer()@
                },
                None => {
                    &&& final(self).answer()@ == old(self).answer()@ + response@
                    &&& if done {
                        r matches ChunkStep::Finished { grew } && grew == (response@.len() > 0)
                    } else {
                        r matches ChunkStep::Continue { grew } && grew == (response@.len() > 0)
                    }
                },
            },
    {
        match error {
            Some(m) => {
                let mut msg = owned("Ollama がエラーを返しました: ");
                msg.append(m.as_str());
                return ChunkStep::Failed(msg);
            },
            None => {},
        }
        let grew = !response.is_empty();
        if grew {
            self.answer.append(response);
        } else {
            assert(self.answer@ =~= old(self).answer@ + response@);
        }
        if done {
            ChunkStep::Finished { grew }
        } else {
            ChunkStep::Continue { grew }
        }
    }

    /// Ends the session when the stream closes: the answer with its sources.
    pub fn finish(self) -> (r: String)
        ensures
            r@ == self.answer()@ + sources_text(result_views(self.sources()@)),
    {
        let mut a = self.answer;
        append_sources(&mut a, self.sources.as_slice());
        a
    }
}

/// Framing gives back what was framed: after a non-empty line without a
/// newline, its newline and further bytes, the next line is that line and
/// the further bytes stay.
pub proof fn law_line_round_trip(line: Seq<u8>, rest: Seq<u8>)
    requires
        line.len() > 0,
        forall|i: int| 0 <= i < line.len() ==> line[i] != 10u8,
    ensures
        take_line(line + seq![10u8] + rest) == (Some(line), rest),
{
    let s = line + seq![10u8] + rest;
    let q = line.len() as int;
    assert(s[0] == line[0]);
    assert(s[q] == 10u8);
    assert forall|j: int| 0 <= j < q implies s[j] != 10u8 by {
        assert(s[j] == line[j]);
    }
    assert(first_newline(s) == Some(q)) by {
        let c = choose|i: int| 0 <= i < s.len() && s[i] == 10u8 && forall|j: int| 0 <= j < i ==> s[j] != 10u8;
        if c < q {
            assert(s[c] != 10u8);
        } else if c > q {
            assert(s[q] != 10u8);
        }
    }
    assert(s.take(q) =~= line);
    assert(s.skip(q + 1) =~= rest);
}

} // verus!
