use poppy::provider::{Action, Provider};
use poppy::providers::todo::TodoProvider;
use poppy::todos::{add_todo, complete_todo, next_id, Todo};

fn todo(id: u64, text: &str) -> Todo {
    Todo { id, text: text.to_string() }
}

#[test]
fn next_id_is_one_more_than_the_largest() {
    assert_eq!(next_id(&[]), 1);
    assert_eq!(next_id(&[todo(3, "a"), todo(7, "b"), todo(2, "c")]), 8);
}

#[test]
fn add_puts_the_new_todo_first() {
    let mut v = vec![todo(1, "old")];
    let id = add_todo(&mut v, "new".to_string());
    assert_eq!(id, 2);
    assert_eq!(v, vec![todo(2, "new"), todo(1, "old")]);
}

#[test]
fn complete_removes_only_that_id() {
    let mut v = vec![todo(3, "a"), todo(2, "b"), todo(1, "c")];
    complete_todo(&mut v, 2);
    assert_eq!(v, vec![todo(3, "a"), todo(1, "c")]);
    complete_todo(&mut v, 9);
    assert_eq!(v, vec![todo(3, "a"), todo(1, "c")]);
}

#[test]
fn add_then_complete_restores_the_list() {
    let before = vec![todo(5, "x"), todo(9, "y")];
    let mut v = before.clone();
    let id = add_todo(&mut v, "z".to_string());
    assert_eq!(id, 10);
    complete_todo(&mut v, id);
    assert_eq!(v, before);
}

#[test]
fn try_add_refuses_when_ids_run_out() {
    let mut p = TodoProvider::new(vec![todo(u64::MAX, "last")]);
    assert_eq!(p.try_add("more".to_string()), None);
    assert_eq!(p.todos(), &vec![todo(u64::MAX, "last")]);
    let mut q = TodoProvider::new(vec![]);
    assert_eq!(q.try_add("first".to_string()), Some(1));
    q.complete(1);
    assert!(q.todos().is_empty());
}

#[test]
fn todo_candidates() {
    let p = TodoProvider::new(vec![todo(2, "Buy Milk"), todo(1, "call mom")]);
    let c = p.candidates("  milk ");
    assert_eq!(c.len(), 2);
    assert_eq!(c[0].label, "「milk」を TODO に追加");
    assert_eq!(c[0].action, Action::AddTodo("milk".to_string()));
    assert_eq!(c[1].label, "TODO の「Buy Milk」を完了にする");
    assert_eq!(c[1].action, Action::CompleteTodo(2));
    assert_eq!(c[1].source, "Todo");
    let all = p.candidates("");
    assert_eq!(all.len(), 2);
    assert_eq!(all[1].action, Action::CompleteTodo(1));
    assert_eq!(p.name(), "Todo");
}
