//! TODO items: a list that new items join at the front and done items leave.
use vstd::prelude::*;

verus! {

/// One TODO item.
#[derive(Debug, Clone, PartialEq)]
pub struct Todo {
    pub id: u64,
    pub text: String,
}

/// The value of a [`Todo`].
pub struct TodoView {
    pub id: u64,
    pub text: Seq<char>,
}

impl View for Todo {
    type V = TodoView;

    open spec fn view(&self) -> TodoView {
        TodoView { id: self.id, text: self.text@ }
    }
}

/// The values of a list of TODOs.
pub open spec fn todo_views(v: Seq<Todo>) -> Seq<TodoView> {
    v.map_values(|t: Todo| t@)
}

/// The largest id in the list, or 0 for an empty list.
pub open spec fn max_id(todos: Seq<TodoView>) -> nat
    decreases todos.len(),
{
    if todos.len() == 0 {
        0
    } else {
        let m = max_id(todos.drop_last());
        if todos.last().id > m {
            todos.last().id as nat
        } else {
            m
        }
    }
}

/// Every id in the list is at most `max_id`.
pub proof fn lemma_max_id_bounds(todos: Seq<TodoView>)
    ensures
        forall|k: int| 0 <= k < todos.len() ==> #[trigger] todos[k].id <= max_id(todos),
    decreases todos.len(),
{
    if todos.len() > 0 {
        lemma_max_id_bounds(todos.drop_last());
        assert forall|k: int| 0 <= k < todos.len() implies #[trigger] todos[k].id <= max_id(todos) by {
            if k < todos.len() - 1 {
                assert(todos[k] == todos.drop_last()[k]);
            }
        }
    }
}

/// The id for a new TODO: one more than the largest id so far (1 for an empty list).
pub fn next_id(todos: &[Todo]) -> (r: u64)
    requires
        max_id(todo_views(todos@)) < u64::MAX,
    ensures
        r == max_id(todo_views(todos@)) + 1,
{
    let ghost all = todo_views(todos@);
    let n = todos.len();
    let mut m: u64 = 0;
    let mut i: usize = 0;
    assert(all.take(0) =~= seq![]);
    while i < n
        invariant
            i <= n,
            n == todos@.len(),
            all == todo_views(todos@),
            m == max_id(all.take(i as int)),
        decreases n - i,
    {
        proof {
            assert(all.take(i as int + 1).drop_last() =~= all.take(i as int));
        }
        if todos[i].id > m {
            m = todos[i].id;
        }
        i = i + 1;
    }
    assert(all.take(n as int) =~= all);
    m + 1
}

/// Whether the largest id is already `u64::MAX`, so that no new id is left.
pub fn ids_exhausted(todos: &[Todo]) -> (r: bool)
    ensures
        r == (max_id(todo_views(todos@)) >= u64::MAX),
{
    let ghost all = todo_views(todos@);
    let n = todos.len();
    let mut i: usize = 0;
    assert(all.take(0) =~= seq![]);
    while i < n
        invariant
            i <= n,
            n == todos@.len(),
            all == todo_views(todos@),
            max_id(all.take(i as int)) < u64::MAX,
        decreases n - i,
    {
        proof {
            assert(all.take(i as int + 1).drop_last() =~= all.take(i as int));
        }
        if todos[i].id == u64::MAX {
            proof {
                lemma_max_id_bounds(all);
                assert(all[i as int].id == u64::MAX);
            }
            return true;
        }
        i = i + 1;
    }
    assert(all.take(n as int) =~= all);
    false
}

/// Whether a TODO keeps its place when the one with `id` is completed.
pub open spec fn other_than(id: u64) -> spec_fn(TodoView) -> bool {
    |t: TodoView| t.id != id
}

/// Adds a TODO with `text` at the front of the list, under the id `next_id`
/// gives, and returns that id.
pub fn add_todo(todos: &mut Vec<Todo>, text: String) -> (id: u64)
    requires
        max_id(todo_views(old(todos)@)) < u64::MAX,
    ensures
        id == max_id(todo_views(old(todos)@)) + 1,
        todo_views(final(todos)@) == seq![TodoView { id, text: text@ }] + todo_views(old(todos)@),
{
    let id = next_id(todos.as_slice());
    todos.insert(0, Todo { id, text });
    assert(todo_views(todos@) =~= seq![TodoView { id, text: text@ }] + todo_views(old(todos)@));
    id
}

/// Completes the TODO with `id`: removes every item with that id, keeping
/// the others in order.
pub fn complete_todo(todos: &mut Vec<Todo>, id: u64)
    ensures
        todo_views(final(todos)@) == todo_views(old(todos)@).filter(other_than(id)),
{
    let ghost all = todo_views(todos@);
    let ghost pred = other_than(id);
    let mut kept: Vec<Todo> = Vec::new();
    let n = todos.len();
    let mut i: usize = 0;
    assert(all.take(0) =~= seq![]);
    assert(todo_views(kept@) =~= seq![]);
    while i < n
        invariant
            i <= n,
            n == todos@.len(),
            all == todo_views(todos@),
            pred == other_than(id),
            todo_views(kept@) == all.take(i as int).filter(pred),
        decreases n - i,
    {
        proof {
            reveal_with_fuel(Seq::filter, 1);
            assert(all.take(i as int + 1).drop_last() =~= all.take(i as int));
            assert(all.take(i as int + 1).last() == todos@[i as int]@);
        }
        if todos[i].id != id {
            let ghost before = kept@;
            kept.push(Todo { id: todos[i].id, text: todos[i].text.clone() });
            assert(todo_views(kept@) =~= todo_views(before).push(todos@[i as int]@));
        }
        i = i + 1;
    }
    assert(all.take(n as int) =~= all);
    *todos = kept;
}

proof fn lemma_filter_all(s: Seq<TodoView>, id: u64)
    requires
        forall|k: int| 0 <= k < s.len() ==> #[trigger] s[k].id != id,
    ensures
        s.filter(other_than(id)) == s,
    decreases s.len(),
{
    reveal_with_fuel(Seq::filter, 1);
    if s.len() > 0 {
        let d = s.drop_last();
        assert forall|k: int| 0 <= k < d.len() implies #[trigger] d[k].id != id by {
            assert(d[k] == s[k]);
        }
        lemma_filter_all(d, id);
        assert(s.last().id != id);
        assert(d.push(s.last()) =~= s);
    }
}

/// Completing a TODO right after adding it gives back the list as it was:
/// the new id is larger than every id already there, so only the new item goes.
pub proof fn law_add_then_complete(before: Seq<TodoView>, text: Seq<char>)
    requires
        max_id(before) < u64::MAX,
    ensures
        ({
            let id = (max_id(before) + 1) as u64;
            (seq![TodoView { id, text }] + before).filter(other_than(id)) == before
        }),
{
    let id = (max_id(before) + 1) as u64;
    lemma_max_id_bounds(before);
    assert forall|k: int| 0 <= k < before.len() implies #[trigger] before[k].id != id by {
    }
    lemma_filter_all(before, id);
    let single = seq![TodoView { id, text }];
    reveal_with_fuel(Seq::filter, 2);
    assert(single.drop_last() =~= Seq::<TodoView>::empty());
    assert(single.filter(other_than(id)) =~= Seq::<TodoView>::empty());
    Seq::filter_distributes_over_add(single, before, other_than(id));
    assert(Seq::<TodoView>::empty() + before =~= before);
}

/// A new TODO's id differs from every id already in the list.
pub proof fn law_new_id_is_fresh(before: Seq<TodoView>)
    requires
        max_id(before) < u64::MAX,
    ensures
        forall|k: int| 0 <= k < before.len() ==> #[trigger] before[k].id != max_id(before) + 1,
{
    lemma_max_id_bounds(before);
}

/// No id occurs twice in the list.
pub open spec fn ids_distinct(todos: Seq<TodoView>) -> bool {
    forall|i: int, j: int| 0 <= i < j < todos.len() ==> todos[i].id != todos[j].id
}

/// Adding a TODO keeps the ids distinct.
pub proof fn law_add_keeps_ids_distinct(before: Seq<TodoView>, text: Seq<char>)
    requires
        ids_distinct(before),
        max_id(before) < u64::MAX,
    ensures
        ids_distinct(seq![TodoView { id: (max_id(before) + 1) as u64, text }] + before),
{
    lemma_max_id_bounds(before);
    let after = seq![TodoView { id: (max_id(before) + 1) as u64, text }] + before;
    assert forall|i: int, j: int| 0 <= i < j < after.len() implies after[i].id != after[j].id by {
        assert(after[j] == before[j - 1]);
        if i > 0 {
            assert(after[i] == before[i - 1]);
        }
    }
}

/// What a filter keeps comes from the list, in an order that keeps ids apart.
proof fn lemma_filter_ids_distinct(s: Seq<TodoView>, id: u64)
    requires
        ids_distinct(s),
    ensures
        ids_distinct(s.filter(other_than(id))),
        forall|i: int|
            0 <= i < s.filter(other_than(id)).len() ==> exists|j: int|
                0 <= j < s.len() && s[j] == #[trigger] s.filter(other_than(id))[i],
    decreases s.len(),
{
    reveal_with_fuel(Seq::filter, 1);
    if s.len() > 0 {
        let d = s.drop_last();
        assert(ids_distinct(d)) by {
            assert forall|i: int, j: int| 0 <= i < j < d.len() implies d[i].id != d[j].id by {
                assert(d[i] == s[i] && d[j] == s[j]);
            }
        }
        lemma_filter_ids_distinct(d, id);
        let fd = d.filter(other_than(id));
        assert forall|i: int| 0 <= i < fd.len() implies exists|j: int| 0 <= j < s.len() && s[j] == #[trigger] fd[i] by {
            let j = choose|j: int| 0 <= j < d.len() && d[j] == fd[i];
            assert(s[j] == d[j]);
        }
        if other_than(id)(s.last()) {
            let f = fd.push(s.last());
            assert forall|i: int, j: int| 0 <= i < j < f.len() implies f[i].id != f[j].id by {
                assert(f[i] == fd[i]);
                if j == f.len() - 1 {
                    let k = choose|k: int| 0 <= k < d.len() && d[k] == fd[i];
                    assert(s[k] == d[k]);
                    assert(s[s.len() - 1] == s.last());
                } else {
                    assert(f[j] == fd[j]);
                }
            }
            assert forall|i: int| 0 <= i < f.len() implies exists|j: int| 0 <= j < s.len() && s[j] == #[trigger] f[i] by {
                if i == f.len() - 1 {
                    assert(s[s.len() - 1] == f[i]);
                } else {
                    assert(f[i] == fd[i]);
                }
            }
        }
    }
}

/// Completing a TODO keeps the ids distinct, and removes every item with that id.
pub proof fn law_complete_keeps_ids_distinct(before: Seq<TodoView>, id: u64)
    requires
        ids_distinct(before),
    ensures
        ids_distinct(before.filter(other_than(id))),
        forall|i: int| 0 <= i < before.filter(other_than(id)).len() ==> #[trigger] before.filter(other_than(id))[i].id != id,
{
    broadcast use vstd::seq_lib::group_filter_ensures;
    lemma_filter_ids_distinct(before, id);
}

} // verus!
