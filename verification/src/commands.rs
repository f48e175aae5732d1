//! Commands: named shell command lines found by name or keyword.
use vstd::prelude::*;
use crate::matching::{clone_strings, entry_matches, entry_matches_exec, strs_view};
use crate::text::{has_substring, lowercase, query_key, query_key_chars};

verus! {

/// A command from `commands.toml`.
#[derive(Debug, Clone)]
pub struct Command {
    /// The name shown for the candidate.
    pub name: String,
    /// The command line to run (through `cmd.exe`).
    pub command: String,
    /// Whether to ask before running it (for destructive commands).
    pub confirm: bool,
    /// Other words that find it (may be empty).
    pub keywords: Vec<String>,
}

/// The value of a [`Command`].
pub struct CommandView {
    pub name: Seq<char>,
    pub command: Seq<char>,
    pub confirm: bool,
    pub keywords: Seq<Seq<char>>,
}

impl View for Command {
    type V = CommandView;

    open spec fn view(&self) -> CommandView {
        CommandView { name: self.name@, command: self.command@, confirm: self.confirm, keywords: strs_view(self.keywords@) }
    }
}

/// The values of a list of commands.
pub open spec fn command_views(v: Seq<Command>) -> Seq<CommandView> {
    v.map_values(|b: Command| b@)
}

/// Whether a command matches a query key.
pub open spec fn command_matches(key: Seq<char>) -> spec_fn(CommandView) -> bool {
    |b: CommandView| entry_matches(b.name, b.keywords, key)
}

/// The commands that `search` returns: none for a query that is blank once
/// trimmed and lower-cased, else those whose name or a keyword contains it,
/// ignoring case, in their order.
pub open spec fn search_spec(commands: Seq<CommandView>, query: Seq<char>) -> Seq<CommandView> {
    let key = query_key(query);
    if key.len() == 0 {
        seq![]
    } else {
        commands.filter(command_matches(key))
    }
}

impl Command {
    /// A copy of the command.
    pub fn duplicate(&self) -> (r: Command)
        ensures
            r@ == self@,
    {
        Command { name: self.name.clone(), command: self.command.clone(), confirm: self.confirm, keywords: clone_strings(&self.keywords) }
    }
}

/// The commands that match the query: those whose name or one of whose
/// keywords contains it, ignoring case and the query's surrounding white space.
pub fn search(commands: &[Command], query: &str) -> (r: Vec<Command>)
    ensures
        command_views(r@) == search_spec(command_views(commands@), query@),
{
    let key = query_key_chars(query);
    if key.len() == 0 {
        assert(command_views(Seq::<Command>::empty()) =~= seq![]);
        return Vec::new();
    }
    let ghost all = command_views(commands@);
    let ghost pred = command_matches(key@);
    let mut r: Vec<Command> = Vec::new();
    let n = commands.len();
    let mut i: usize = 0;
    assert(all.take(0) =~= seq![]);
    assert(command_views(r@) =~= seq![]);
    while i < n
        invariant
            i <= n,
            n == commands@.len(),
            all == command_views(commands@),
            pred == command_matches(key@),
            command_views(r@) == all.take(i as int).filter(pred),
        decreases n - i,
    {
        let b = &commands[i];
        let hit = entry_matches_exec(&b.name, &b.keywords, &key);
        proof {
            reveal_with_fuel(Seq::filter, 1);
            assert(all.take(i as int + 1).drop_last() =~= all.take(i as int));
            assert(all.take(i as int + 1).last() == b@);
        }
        if hit {
            let ghost before = r@;
            r.push(b.duplicate());
            assert(command_views(r@) =~= command_views(before).push(b@));
        }
        i = i + 1;
    }
    assert(all.take(n as int) =~= all);
    r
}

/// Searching ignores white space around the query: a trimmed query finds
/// the same commands.
pub proof fn law_search_ignores_surrounding_space(commands: Seq<CommandView>, query: Seq<char>)
    ensures
        search_spec(commands, crate::text::trim_spec(query)) == search_spec(commands, query),
{
    crate::text::law_trim_idempotent(query);
}

/// A search ignores case and finds exactly the commands that match: for a
/// non-blank query, a command whose lower-cased name or one of whose lower-cased
/// keywords contains the lower-cased, trimmed query is found; and each command
/// found is one of the list and matches so.
pub proof fn law_search_finds_matches(commands: Seq<CommandView>, query: Seq<char>, i: int)
    requires
        query_key(query).len() > 0,
    ensures
        0 <= i < commands.len() && (has_substring(lowercase(commands[i].name), query_key(query)) || exists|k: int|
            0 <= k < commands[i].keywords.len() && has_substring(lowercase(#[trigger] commands[i].keywords[k]), query_key(query)))
            ==> search_spec(commands, query).contains(commands[i]),
        forall|j: int|
            0 <= j < search_spec(commands, query).len() ==> commands.contains(#[trigger] search_spec(commands, query)[j]) && (
            has_substring(lowercase(search_spec(commands, query)[j].name), query_key(query)) || exists|k: int|
                0 <= k < search_spec(commands, query)[j].keywords.len() && has_substring(
                    lowercase(#[trigger] search_spec(commands, query)[j].keywords[k]),
                    query_key(query),
                )),
{
    broadcast use vstd::seq_lib::group_filter_ensures;
    let key = query_key(query);
    let pred = command_matches(key);
    if 0 <= i < commands.len() {
        if has_substring(lowercase(commands[i].name), key) || exists|k: int|
            0 <= k < commands[i].keywords.len() && has_substring(lowercase(#[trigger] commands[i].keywords[k]), key) {
            assert(pred(commands[i]));
            commands.lemma_filter_contains(pred, i);
        }
    }
    assert forall|j: int| 0 <= j < search_spec(commands, query).len() implies commands.contains(
        #[trigger] search_spec(commands, query)[j],
    ) by {
        let f = commands.filter(pred);
        assert(f.contains(f[j]));
        commands.lemma_filter_contains_rev(pred, f[j]);
    }
}

} // verus!
