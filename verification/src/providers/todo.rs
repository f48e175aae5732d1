//! Offers to add the query as a TODO, and to complete the TODOs that match it.
use vstd::prelude::*;
use crate::provider::{Action, ActionView, Candidate, CandidateView, Provider, candidate_views};
use crate::text::{concat3, has_substring, lowercase, lowercase_chars, lowercase_contains, trim, trim_spec};
use crate::todos::{Todo, TodoView, add_todo, complete_todo, max_id, other_than, todo_views};

verus! {

/// The candidate that completes a TODO.
pub open spec fn complete_candidate(t: TodoView) -> CandidateView {
    CandidateView {
        label: "TODO の「"@ + t.text + "」を完了にする"@,
        source: "Todo"@,
        action: ActionView::CompleteTodo(t.id),
    }
}

/// Whether a TODO is shown for a query: every TODO for a blank query, else
/// those whose lower-cased text contains the lower-cased, trimmed query.
pub open spec fn todo_shown(query: Seq<char>) -> spec_fn(TodoView) -> bool {
    |t: TodoView| trim_spec(query).len() == 0 || has_substring(lowercase(t.text), lowercase(trim_spec(query)))
}

/// The candidates for a query: for a non-blank query first one that adds the
/// trimmed query as a TODO, then one per shown TODO, in order.
pub open spec fn todo_offered(todos: Seq<TodoView>, query: Seq<char>) -> Seq<CandidateView> {
    let q = trim_spec(query);
    let head = if q.len() == 0 {
        seq![]
    } else {
        seq![CandidateView { label: "「"@ + q + "」を TODO に追加"@, source: "Todo"@, action: ActionView::AddTodo(q) }]
    };
    head + todos.filter(todo_shown(query)).map_values(|t: TodoView| complete_candidate(t))
}

/// The TODOs offered for completion depend on the query only through its
/// lower-cased, trimmed form: two non-blank queries that lower-case alike after
/// trimming are offered the same TODOs to complete (after the one that adds
/// the query).
pub proof fn law_todo_completion_ignores_case(todos: Seq<TodoView>, q1: Seq<char>, q2: Seq<char>)
    requires
        trim_spec(q1).len() > 0,
        trim_spec(q2).len() > 0,
        lowercase(trim_spec(q1)) == lowercase(trim_spec(q2)),
    ensures
        todo_offered(todos, q1).len() > 0,
        todo_offered(todos, q1).skip(1) == todo_offered(todos, q2).skip(1),
{
    assert(todo_shown(q1) == todo_shown(q2));
    let f = |t: TodoView| complete_candidate(t);
    let h1 = seq![CandidateView { label: "「"@ + trim_spec(q1) + "」を TODO に追加"@, source: "Todo"@, action: ActionView::AddTodo(trim_spec(q1)) }];
    let h2 = seq![CandidateView { label: "「"@ + trim_spec(q2) + "」を TODO に追加"@, source: "Todo"@, action: ActionView::AddTodo(trim_spec(q2)) }];
    let rest = todos.filter(todo_shown(q1)).map_values(f);
    assert((h1 + rest).skip(1) =~= rest);
    assert((h2 + rest).skip(1) =~= rest);
}

/// For a non-blank query, a TODO whose lower-cased text contains the
/// lower-cased, trimmed query is offered for completion, whatever the case of
/// either; and the first candidate adds the trimmed query as a TODO.
pub proof fn law_todo_offers_matches(todos: Seq<TodoView>, query: Seq<char>, i: int)
    requires
        trim_spec(query).len() > 0,
    ensures
        todo_offered(todos, query).len() > 0,
        todo_offered(todos, query)[0].action == ActionView::AddTodo(trim_spec(query)),
        0 <= i < todos.len() && has_substring(lowercase(todos[i].text), lowercase(trim_spec(query))) ==> todo_offered(
            todos,
            query,
        ).contains(complete_candidate(todos[i])),
{
    broadcast use vstd::seq_lib::group_filter_ensures;
    let pred = todo_shown(query);
    let fs = todos.filter(pred);
    let f = |t: TodoView| complete_candidate(t);
    let h = seq![CandidateView { label: "「"@ + trim_spec(query) + "」を TODO に追加"@, source: "Todo"@, action: ActionView::AddTodo(trim_spec(query)) }];
    assert(todo_offered(todos, query) == h + fs.map_values(f));
    if 0 <= i < todos.len() && has_substring(lowercase(todos[i].text), lowercase(trim_spec(query))) {
        todos.lemma_filter_contains(pred, i);
        let k = choose|k: int| 0 <= k < fs.len() && fs[k] == todos[i];
        assert((h + fs.map_values(f))[k + 1] == complete_candidate(todos[i]));
    }
}

/// The TODO list, offered as candidates.
pub struct TodoProvider {
    todos: Vec<Todo>,
}

impl TodoProvider {
    /// A provider over the given TODOs.
    pub fn new(todos: Vec<Todo>) -> (r: TodoProvider)
        ensures
            todo_views(r.items()@) == todo_views(todos@),
    {
        TodoProvider { todos }
    }

    /// The TODOs.
    pub closed spec fn items(&self) -> Vec<Todo> {
        self.todos
    }

    /// The TODOs, newest first.
    pub fn todos(&self) -> (r: &Vec<Todo>)
        ensures
            r@ == self.items()@,
    {
        &self.todos
    }

    /// Adds a TODO at the front; see [`add_todo`].
    pub fn add(&mut self, text: String) -> (id: u64)
        requires
            max_id(todo_views(old(self).items()@)) < u64::MAX,
        ensures
            id == max_id(todo_views(old(self).items()@)) + 1,
            todo_views(final(self).items()@) == seq![TodoView { id, text: text@ }] + todo_views(old(self).items()@),
    {
        add_todo(&mut self.todos, text)
    }

    /// Adds a TODO at the front unless every id is taken (the largest id is
    /// already `u64::MAX`), in which case nothing changes and `None` comes back.
    pub fn try_add(&mut self, text: String) -> (r: Option<u64>)
        ensures
            max_id(todo_views(old(self).items()@)) < u64::MAX ==> r == Some((max_id(todo_views(old(self).items()@)) + 1) as u64)
                && todo_views(final(self).items()@) == seq![TodoView { id: r->Some_0, text: text@ }] + todo_views(old(self).items()@),
            max_id(todo_views(old(self).items()@)) >= u64::MAX ==> r is None && todo_views(final(self).items()@) == todo_views(old(self).items()@),
    {
        if crate::todos::ids_exhausted(&self.todos) {
            None
        } else {
            Some(add_todo(&mut self.todos, text))
        }
    }

    /// Completes a TODO; see [`complete_todo`].
    pub fn complete(&mut self, id: u64)
        ensures
            todo_views(final(self).items()@) == todo_views(old(self).items()@).filter(other_than(id)),
    {
        complete_todo(&mut self.todos, id)
    }
}

impl Provider for TodoProvider {
    open spec fn provider_name(&self) -> Seq<char> {
        "Todo"@
    }

    open spec fn offered(&self, query: Seq<char>) -> Seq<CandidateView> {
        todo_offered(todo_views(self.items()@), query)
    }

    fn name(&self) -> (r: &'static str) {
        "Todo"
    }

    fn candidates(&self, query: &str) -> (r: Vec<Candidate>) {
        let q = trim(query);
        let ql = lowercase_chars(q.as_str());
        let blank = q.as_str().is_empty();
        let mut list: Vec<Candidate> = Vec::new();
        if !blank {
            list.push(Candidate {
                label: concat3("「", q.as_str(), "」を TODO に追加"),
                source: "Todo",
                action: Action::AddTodo(q.clone()),
            });
        }
        let ghost head = candidate_views(list@);
        assert(head =~= (if trim_spec(query@).len() == 0 {
            Seq::<CandidateView>::empty()
        } else {
            seq![CandidateView { label: "「"@ + trim_spec(query@) + "」を TODO に追加"@, source: "Todo"@, action: ActionView::AddTodo(trim_spec(query@)) }]
        }));
        let ghost all = todo_views(self.todos@);
        let ghost pred = todo_shown(query@);
        let ghost f = |t: TodoView| complete_candidate(t);
        let n = self.todos.len();
        let mut i: usize = 0;
        assert(all.take(0) =~= seq![]);
        assert(head + all.take(0).filter(pred).map_values(f) =~= head);
        while i < n
            invariant
                i <= n,
                n == self.todos@.len(),
                all == todo_views(self.todos@),
                pred == todo_shown(query@),
                f == (|t: TodoView| complete_candidate(t)),
                blank == (trim_spec(query@).len() == 0),
                ql@ == lowercase(trim_spec(query@)),
                candidate_views(list@) == head + all.take(i as int).filter(pred).map_values(f),
            decreases n - i,
        {
            let t = &self.todos[i];
            proof {
                reveal_with_fuel(Seq::filter, 1);
                assert(all.take(i as int + 1).drop_last() =~= all.take(i as int));
                assert(all.take(i as int + 1).last() == t@);
            }
            if blank || lowercase_contains(t.text.as_str(), &ql) {
                let c = Candidate {
                    label: concat3("TODO の「", t.text.as_str(), "」を完了にする"),
                    source: "Todo",
                    action: Action::CompleteTodo(t.id),
                };
                let ghost before = list@;
                let ghost fb = all.take(i as int).filter(pred);
                list.push(c);
                assert(candidate_views(list@) =~= candidate_views(before).push(c@));
                assert(fb.push(t@).map_values(f) =~= fb.map_values(f).push(f(t@)));
                assert(head + fb.push(t@).map_values(f) =~= (head + fb.map_values(f)).push(f(t@)));
            }
            i = i + 1;
        }
        assert(all.take(n as int) =~= all);
        list
    }
}

} // verus!
