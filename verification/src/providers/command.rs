//! Offers the commands that match the query, to be run, and the command file itself.
use vstd::prelude::*;
use crate::commands::{self, Command, CommandView, command_views, search_spec};
use crate::provider::{Action, ActionView, Candidate, CandidateView, Provider, candidate_views};
use crate::providers::config_file::{config_file_candidates, config_file_offered, path_view};
use crate::text::{concat2, trim, trim_spec};

verus! {

/// The label of the candidate that opens `commands.toml`.
pub open spec fn open_config_label() -> Seq<char> {
    "Open Commands (設定ファイルを開く)"@
}

/// The candidate offered for a command.
pub open spec fn command_candidate(c: CommandView) -> CandidateView {
    CandidateView {
        label: c.name + " を実行"@,
        source: "Command"@,
        action: ActionView::RunCommand { command: c.command, confirm: c.confirm },
    }
}

/// The candidates for a query: the one that opens `commands.toml` first (when the
/// query is blank or "open commands" or "config" contains it, and the file's path
/// is known), then, for a non-blank query, one per command that `search` finds.
pub open spec fn command_offered(
    all: Seq<CommandView>,
    config_path: Option<Seq<char>>,
    query: Seq<char>,
) -> Seq<CandidateView> {
    let q = trim_spec(query);
    let head = config_file_offered("open commands"@, open_config_label(), "Command"@, config_path, query);
    let tail = if q.len() == 0 {
        seq![]
    } else {
        search_spec(all, q).map_values(|c: CommandView| command_candidate(c))
    };
    head + tail
}

/// Offers the commands read from `commands.toml`, and that file.
pub struct CommandProvider {
    commands: Vec<Command>,
    config_path: Option<String>,
}

impl CommandProvider {
    /// A provider over the given commands; `config_path` is where `commands.toml`
    /// lives, when it is known.
    pub fn new(commands: Vec<Command>, config_path: Option<String>) -> (r: CommandProvider)
        ensures
            command_views(r.items()@) == command_views(commands@),
            r.config_path() == config_path,
    {
        CommandProvider { commands, config_path }
    }

    /// Replaces the commands with a freshly read list.
    pub fn reload(&mut self, commands: Vec<Command>)
        ensures
            command_views(final(self).items()@) == command_views(commands@),
            final(self).config_path() == old(self).config_path(),
    {
        self.commands = commands;
    }

    /// The commands searched.
    pub closed spec fn items(&self) -> Vec<Command> {
        self.commands
    }

    /// The path of `commands.toml`.
    pub closed spec fn config_path(&self) -> Option<String> {
        self.config_path
    }
}

impl Provider for CommandProvider {
    open spec fn provider_name(&self) -> Seq<char> {
        "Command"@
    }

    open spec fn offered(&self, query: Seq<char>) -> Seq<CandidateView> {
        command_offered(command_views(self.items()@), path_view(self.config_path()), query)
    }

    fn name(&self) -> (r: &'static str) {
        "Command"
    }

    fn candidates(&self, query: &str) -> (r: Vec<Candidate>) {
        let mut list = config_file_candidates("open commands", "Open Commands (設定ファイルを開く)", "Command", &self.config_path, query);
        let ghost head = candidate_views(list@);
        let q = trim(query);
        if q.as_str().is_empty() {
            assert(head + seq![] =~= head);
            return list;
        }
        let found = commands::search(self.commands.as_slice(), q.as_str());
        let ghost fv = command_views(found@);
        let ghost f = |c: CommandView| command_candidate(c);
        let n = found.len();
        let mut i: usize = 0;
        assert(head + fv.take(0).map_values(f) =~= head);
        while i < n
            invariant
                i <= n,
                n == found@.len(),
                fv == command_views(found@),
                f == (|c: CommandView| command_candidate(c)),
                candidate_views(list@) == head + fv.take(i as int).map_values(f),
            decreases n - i,
        {
            let c = &found[i];
            let cand = Candidate {
                label: concat2(c.name.as_str(), " を実行"),
                source: "Command",
                action: Action::RunCommand { command: c.command.clone(), confirm: c.confirm },
            };
            let ghost before = list@;
            list.push(cand);
            assert(candidate_views(list@) =~= candidate_views(before).push(cand@));
            assert(fv.take(i as int + 1) =~= fv.take(i as int).push(c@));
            assert(fv.take(i as int + 1).map_values(f) =~= fv.take(i as int).map_values(f).push(f(c@)));
            assert(head + fv.take(i as int + 1).map_values(f) =~= (head + fv.take(i as int).map_values(f)).push(f(c@)));
            i = i + 1;
        }
        assert(fv.take(n as int) =~= fv);
        list
    }
}

} // verus!
