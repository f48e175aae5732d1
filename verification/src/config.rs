//! The settings kept in `config.toml` that the logic reads: the hotkey, which
//! providers are on, and where the language model is.
use vstd::prelude::*;
use crate::text::owned;

verus! {

/// General settings.
#[derive(Debug, Clone, PartialEq)]
pub struct General {
    /// The global hotkey that shows and hides the window.
    pub hotkey: String,
}

impl Default for General {
    fn default() -> (r: General)
        ensures
            r.hotkey@ == "ctrl+alt+r"@,
    {
        General { hotkey: owned("ctrl+alt+r") }
    }
}

/// Which providers are on.
#[derive(Debug, Clone, Copy, PartialEq)]
pub struct Providers {
    pub window: bool,
    pub project: bool,
    pub bookmark: bool,
    pub snippet: bool,
    pub app: bool,
    pub websearch: bool,
    pub llm: bool,
    pub clipboard: bool,
    pub command: bool,
    pub todo: bool,
}

impl Default for Providers {
    fn default() -> (r: Providers)
        ensures
            r.window && r.project && r.bookmark && r.snippet && r.app,
            r.websearch && r.llm && r.clipboard && r.command && r.todo,
    {
        Providers {
            window: true,
            project: true,
            bookmark: true,
            snippet: true,
            app: true,
            websearch: true,
            llm: true,
            clipboard: true,
            command: true,
            todo: true,
        }
    }
}

/// Where the language model runs, and the web search key.
#[derive(Debug, Clone, PartialEq)]
pub struct Llm {
    /// The address of the Ollama server.
    pub host: String,
    /// The model's name.
    pub model: String,
    /// The Tavily API key (blank: ask the model without a web search).
    pub tavily_api_key: String,
}

impl Default for Llm {
    fn default() -> (r: Llm)
        ensures
            r.host@ == "http://localhost:11434"@,
            r.model@ == "gemma3:4b"@,
            r.tavily_api_key@ == Seq::<char>::empty(),
    {
        Llm { host: owned("http://localhost:11434"), model: owned("gemma3:4b"), tavily_api_key: String::new() }
    }
}

} // verus!
