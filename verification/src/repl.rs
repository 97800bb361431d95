//! The interactive prompt: what it keeps of the session, and what each
//! line of input does to it. Reading keys and drawing the screen happen
//! elsewhere.

use vstd::prelude::*;
use vstd::string::StringExecFns;
use crate::report_text::{byte_len, split_words, words_of};
use crate::text::{
    chars_of, first_line_len, keep_last, lemma_first_line_len_bound, line_end, lowercase, owned,
    str_eq, string_of, string_views, to_lowercase, trim, trim_front, trimmed,
};
use crate::wordlist::{join_lines, write_lines};

verus! {

/// The most lines of output that are kept.
pub const MAX_OUTPUT_LINES: usize = 1000;

/// The most lines of input that the history keeps.
pub const MAX_HISTORY: usize = 100;

/// How the prompt was asked to end.
#[derive(Debug, Clone, Copy, PartialEq, Eq, Structural)]
pub enum ExitMode {
    /// Not at all.
    NotRequested,
    /// With `exit` or `quit`: the user is asked about saving the history.
    Normal,
    /// With `:q!`: nothing is saved.
    ForceQuit,
    /// With `:wq!` or `ZZ`: the history is saved without asking.
    WriteQuit,
}

/// What is left for the caller to do after a step of the prompt.
#[derive(Debug, Clone, Copy, PartialEq, Eq, Structural)]
pub enum ReplAction {
    /// Nothing.
    Nothing,
    /// Write the history to its file, and report how that went with
    /// `history_saved`.
    SaveHistory,
}

/// The state of the prompt, as a mathematical value.
pub struct AppView {
    /// The line that is being typed.
    pub input: Seq<char>,
    /// The lines entered so far, the oldest first.
    pub history: Seq<Seq<char>>,
    /// The lines shown, the oldest first.
    pub output: Seq<Seq<char>>,
    /// The position of the cursor in the input, in bytes.
    pub cursor_position: nat,
    pub should_quit: bool,
    /// How far the output is scrolled back.
    pub scroll_offset: nat,
    /// The entry of the history that is shown as input, while the user walks
    /// through the history.
    pub history_index: Option<nat>,
    /// What was typed before the walk through the history began.
    pub temp_input: Seq<char>,
    pub exit_mode: ExitMode,
    pub awaiting_save_confirmation: bool,
}

/// The entry that is shown, if any, exists.
pub open spec fn app_ok(a: AppView) -> bool {
    a.history_index is Some ==> a.history_index->Some_0 < a.history.len()
}

/// The lines that greet the user.
pub open spec fn welcome_lines() -> Seq<Seq<char>> {
    seq![
        ""@,
        "    ╔════════════════════════════════════════════════════════╗"@,
        "    ║  ██████╗ ██╗███╗   ██╗███████╗██╗     ███████╗██████╗  ║"@,
        "    ║  ██╔══██╗██║████╗  ██║╚══███╔╝██║     ██╔════╝██╔══██╗ ║"@,
        "    ║  ██████╔╝██║██╔██╗ ██║  ███╔╝ ██║     █████╗  ██████╔╝ ║"@,
        "    ║  ██╔══██╗██║██║╚██╗██║ ███╔╝  ██║     ██╔══╝  ██╔══██╗ ║"@,
        "    ║  ██║  ██║██║██║ ╚████║███████╗███████╗███████╗██║  ██║ ║"@,
        "    ║  ╚═╝  ╚═╝╚═╝╚═╝  ╚═══╝╚══════╝╚══════╝╚══════╝╚═╝  ╚═╝ ║"@,
        "    ║                                                        ║"@,
        "    ║           ⚡ Interactive REPL Interface ⚡             ║"@,
        "    ╚════════════════════════════════════════════════════════╝"@,
        "        "@,
        ""@,
        "  Type 'help' for available commands, 'exit' or 'quit' to exit."@,
        ""@,
    ]
}

/// The state in which the prompt starts.
pub open spec fn initial_app() -> AppView {
    AppView {
        input: Seq::empty(),
        history: Seq::empty(),
        output: welcome_lines(),
        cursor_position: 0,
        should_quit: false,
        scroll_offset: 0,
        history_index: None,
        temp_input: Seq::empty(),
        exit_mode: ExitMode::NotRequested,
        awaiting_save_confirmation: false,
    }
}

/// The state with one more line of output: of the lines the last
/// `MAX_OUTPUT_LINES` are kept, and the view jumps back to the end.
pub open spec fn with_output(a: AppView, line: Seq<char>) -> AppView {
    AppView {
        output: keep_last(a.output.push(line), MAX_OUTPUT_LINES as nat),
        scroll_offset: 0,
        ..a
    }
}

/// The state with several more lines of output, added one after the other.
pub open spec fn with_outputs(a: AppView, lines: Seq<Seq<char>>) -> AppView
    decreases lines.len(),
{
    if lines.len() == 0 {
        a
    } else {
        with_output(with_outputs(a, lines.drop_last()), lines.last())
    }
}

/// The state after the user asked for the entry before the one shown. The
/// first step back remembers what was typed.
pub open spec fn stepped_back(a: AppView) -> AppView {
    if a.history.len() == 0 {
        a
    } else {
        let index: nat = match a.history_index {
            None => (a.history.len() - 1) as nat,
            Some(i) => if i == 0 {
                0
            } else {
                (i - 1) as nat
            },
        };
        AppView {
            temp_input: if a.history_index is None {
                a.input
            } else {
                a.temp_input
            },
            history_index: Some(index),
            input: a.history[index as int],
            cursor_position: byte_len(a.history[index as int]),
            ..a
        }
    }
}

/// The state after the user asked for the entry after the one shown. Past
/// the newest entry comes what was typed before the walk began.
pub open spec fn stepped_forward(a: AppView) -> AppView {
    if a.history.len() == 0 || a.history_index is None {
        a
    } else {
        let i = a.history_index->Some_0;
        if i >= a.history.len() - 1 {
            AppView {
                input: a.temp_input,
                cursor_position: byte_len(a.temp_input),
                history_index: None,
                temp_input: Seq::empty(),
                ..a
            }
        } else {
            AppView {
                history_index: Some(i + 1),
                input: a.history[i as int + 1],
                cursor_position: byte_len(a.history[i as int + 1]),
                ..a
            }
        }
    }
}

/// The state after the prompt was asked to end in the way `mode`, and what
/// is left to do.
pub open spec fn exit_requested(a: AppView, mode: ExitMode) -> (AppView, ReplAction) {
    let marked = AppView { exit_mode: mode, ..a };
    match mode {
        ExitMode::Normal => if a.history.len() > 0 {
            (
                with_output(
                    with_output(
                        AppView { awaiting_save_confirmation: true, ..marked },
                        Seq::empty(),
                    ),
                    "Save command history to ~/.rinzler_history? [y/N]:"@,
                ),
                ReplAction::Nothing,
            )
        } else {
            (AppView { should_quit: true, ..marked }, ReplAction::Nothing)
        },
        ExitMode::ForceQuit => (AppView { should_quit: true, ..marked }, ReplAction::Nothing),
        ExitMode::WriteQuit => (
            AppView { should_quit: true, ..marked },
            if a.history.len() > 0 {
                ReplAction::SaveHistory
            } else {
                ReplAction::Nothing
            },
        ),
        ExitMode::NotRequested => (marked, ReplAction::Nothing),
    }
}

/// An answer that means yes, in lower case.
pub open spec fn is_yes(answer: Seq<char>) -> bool {
    answer == "y"@ || answer == "yes"@
}

/// The state after the user answered the question about saving with the
/// lower-cased answer `answer`, and what is left to do. Either way the
/// prompt ends.
pub open spec fn confirmed(a: AppView, answer: Seq<char>) -> (AppView, ReplAction) {
    let done = AppView { awaiting_save_confirmation: false, should_quit: true, ..a };
    if is_yes(answer) {
        (done, ReplAction::SaveHistory)
    } else {
        (with_output(done, "History not saved."@), ReplAction::Nothing)
    }
}

/// The line that tells how saving the history went.
pub open spec fn save_report(error: Option<Seq<char>>) -> Seq<char> {
    match error {
        None => "History saved to ~/.rinzler_history"@,
        Some(e) => "Error saving history: "@ + e,
    }
}

/// The `i`-th word of a command, or `fallback` where it has fewer words.
pub open spec fn word_or(parts: Seq<Seq<char>>, i: int, fallback: Seq<char>) -> Seq<char> {
    if i < parts.len() {
        parts[i]
    } else {
        fallback
    }
}

/// The lines of the help.
pub open spec fn help_lines() -> Seq<Seq<char>> {
    seq![
        "Available commands:"@,
        "  init [path]                    - Initialize Rinzler configuration"@,
        "  workspace create <name>        - Create a new workspace"@,
        "  workspace remove <name>        - Remove a workspace"@,
        "  workspace list                 - List all workspaces"@,
        "  workspace rename <old> <new>   - Rename a workspace"@,
        "  crawl <url> [threads]          - Passively crawl a URL"@,
        "  fuzz <url> [wordlist] [threads] - Actively fuzz a URL"@,
        "  plugin list                    - List all plugins"@,
        "  plugin register <file> <name>  - Register a plugin"@,
        "  plugin unregister <name>       - Unregister a plugin"@,
        "  clear                          - Clear the output"@,
        "  help                           - Show this help message"@,
        "  exit, quit                     - Exit the REPL"@,
    ]
}

/// The answer to `init`.
pub open spec fn init_lines(parts: Seq<Seq<char>>) -> Seq<Seq<char>> {
    seq![
        "Initializing Rinzler at: "@ + word_or(parts, 1, "~/.config/rinzler/database"@),
        "Note: Interactive prompts not yet supported in TUI mode"@,
        "Use CLI mode for initial setup: rinzler init"@,
    ]
}

/// The answer to `workspace`.
pub open spec fn workspace_lines(parts: Seq<Seq<char>>) -> Seq<Seq<char>> {
    if parts.len() < 2 {
        seq![
            "Error: workspace command requires a subcommand"@,
            "Try: workspace create|remove|list|rename"@,
        ]
    } else if parts[1] == "create"@ {
        if parts.len() > 2 {
            seq!["Creating workspace: "@ + parts[2], "TODO: Implement workspace creation"@]
        } else {
            seq!["Error: workspace create requires a name"@]
        }
    } else if parts[1] == "remove"@ {
        if parts.len() > 2 {
            seq!["Removing workspace: "@ + parts[2], "TODO: Implement workspace removal"@]
        } else {
            seq!["Error: workspace remove requires a name"@]
        }
    } else if parts[1] == "list"@ {
        seq!["Listing workspaces:"@, "TODO: Implement workspace listing"@]
    } else if parts[1] == "rename"@ {
        if parts.len() >= 4 {
            seq![
                "Renaming workspace from '"@ + parts[2] + "' to '"@ + parts[3] + "'"@,
                "TODO: Implement workspace renaming"@,
            ]
        } else {
            seq!["Error: workspace rename requires old and new names"@]
        }
    } else {
        seq!["Error: unknown workspace subcommand: "@ + parts[1]]
    }
}

/// The answer to `crawl`.
pub open spec fn crawl_lines(parts: Seq<Seq<char>>) -> Seq<Seq<char>> {
    if parts.len() > 1 {
        seq![
            "Crawling URL: "@ + parts[1] + " with "@ + word_or(parts, 2, "10"@) + " threads"@,
            "TODO: Implement crawling logic"@,
        ]
    } else {
        seq!["Error: crawl requires a URL"@]
    }
}

/// The answer to `fuzz`.
pub open spec fn fuzz_lines(parts: Seq<Seq<char>>) -> Seq<Seq<char>> {
    if parts.len() > 1 {
        seq![
            "Fuzzing URL: "@ + parts[1],
            "  Wordlist: "@ + word_or(parts, 2, "~/.config/rinzler/wordlists/default.txt"@),
            "  Threads: "@ + word_or(parts, 3, "10"@),
            "TODO: Implement fuzzing logic"@,
        ]
    } else {
        seq!["Error: fuzz requires a URL"@]
    }
}

/// The answer to `plugin`.
pub open spec fn plugin_lines(parts: Seq<Seq<char>>) -> Seq<Seq<char>> {
    if parts.len() < 2 {
        seq!["Error: plugin command requires a subcommand"@, "Try: plugin list|register|unregister"@]
    } else if parts[1] == "list"@ {
        seq!["Listing plugins:"@, "TODO: Implement plugin listing"@]
    } else if parts[1] == "register"@ {
        if parts.len() >= 4 {
            seq![
                "Registering plugin '"@ + parts[3] + "' from file: "@ + parts[2],
                "TODO: Implement plugin registration"@,
            ]
        } else {
            seq!["Error: plugin register requires file path and name"@]
        }
    } else if parts[1] == "unregister"@ {
        if parts.len() > 2 {
            seq!["Unregistering plugin: "@ + parts[2], "TODO: Implement plugin unregistration"@]
        } else {
            seq!["Error: plugin unregister requires a name"@]
        }
    } else {
        seq!["Error: unknown plugin subcommand: "@ + parts[1]]
    }
}

/// The lines that answer a command that only prints.
pub open spec fn reply_lines(parts: Seq<Seq<char>>) -> Seq<Seq<char>> {
    if parts[0] == "help"@ {
        help_lines()
    } else if parts[0] == "init"@ {
        init_lines(parts)
    } else if parts[0] == "workspace"@ {
        workspace_lines(parts)
    } else if parts[0] == "crawl"@ {
        crawl_lines(parts)
    } else if parts[0] == "fuzz"@ {
        fuzz_lines(parts)
    } else if parts[0] == "plugin"@ {
        plugin_lines(parts)
    } else {
        seq!["Unknown command: "@ + parts[0], "Type 'help' for available commands"@]
    }
}

/// The state after the command with the words `parts` was run, and what is
/// left to do.
pub open spec fn executed(a: AppView, parts: Seq<Seq<char>>) -> (AppView, ReplAction) {
    if parts.len() == 0 {
        (a, ReplAction::Nothing)
    } else if parts[0] == "exit"@ || parts[0] == "quit"@ {
        exit_requested(a, ExitMode::Normal)
    } else if parts[0] == ":q!"@ {
        exit_requested(a, ExitMode::ForceQuit)
    } else if parts[0] == ":wq!"@ || parts[0] == "ZZ"@ {
        exit_requested(a, ExitMode::WriteQuit)
    } else if parts[0] == "clear"@ {
        (AppView { output: Seq::empty(), ..a }, ReplAction::Nothing)
    } else {
        (with_outputs(a, reply_lines(parts)), ReplAction::Nothing)
    }
}

/// The state after the line `input` was entered, and what is left to do.
/// An empty line does nothing. While the question about saving stands, the
/// line is the answer to it. Any other line joins the history, of which the
/// last `MAX_HISTORY` lines are kept, is echoed, and is run as a command.
pub open spec fn handled(a: AppView, input: Seq<char>) -> (AppView, ReplAction) {
    if input.len() == 0 {
        (a, ReplAction::Nothing)
    } else if a.awaiting_save_confirmation {
        confirmed(a, lowercase(trimmed(input)))
    } else {
        executed(
            with_output(
                AppView {
                    history: keep_last(a.history.push(input), MAX_HISTORY as nat),
                    history_index: None,
                    temp_input: Seq::empty(),
                    ..a
                },
                "> "@ + input,
            ),
            words_of(input),
        )
    }
}

fn welcome() -> (lines: Vec<String>)
    ensures
        string_views(lines@) == welcome_lines(),
{
    let mut lines: Vec<String> = Vec::new();
    lines.push(owned(""));
    lines.push(owned("    ╔════════════════════════════════════════════════════════╗"));
    lines.push(owned("    ║  ██████╗ ██╗███╗   ██╗███████╗██╗     ███████╗██████╗  ║"));
    lines.push(owned("    ║  ██╔══██╗██║████╗  ██║╚══███╔╝██║     ██╔════╝██╔══██╗ ║"));
    lines.push(owned("    ║  ██████╔╝██║██╔██╗ ██║  ███╔╝ ██║     █████╗  ██████╔╝ ║"));
    lines.push(owned("    ║  ██╔══██╗██║██║╚██╗██║ ███╔╝  ██║     ██╔══╝  ██╔══██╗ ║"));
    lines.push(owned("    ║  ██║  ██║██║██║ ╚████║███████╗███████╗███████╗██║  ██║ ║"));
    lines.push(owned("    ║  ╚═╝  ╚═╝╚═╝╚═╝  ╚═══╝╚══════╝╚══════╝╚══════╝╚═╝  ╚═╝ ║"));
    lines.push(owned("    ║                                                        ║"));
    lines.push(owned("    ║           ⚡ Interactive REPL Interface ⚡             ║"));
    lines.push(owned("    ╚════════════════════════════════════════════════════════╝"));
    lines.push(owned("        "));
    lines.push(owned(""));
    lines.push(owned("  Type 'help' for available commands, 'exit' or 'quit' to exit."));
    lines.push(owned(""));
    assert(string_views(lines@) =~= welcome_lines());
    lines
}

fn help() -> (lines: Vec<String>)
    ensures
        string_views(lines@) == help_lines(),
{
    let mut lines: Vec<String> = Vec::new();
    lines.push(owned("Available commands:"));
    lines.push(owned("  init [path]                    - Initialize Rinzler configuration"));
    lines.push(owned("  workspace create <name>        - Create a new workspace"));
    lines.push(owned("  workspace remove <name>        - Remove a workspace"));
    lines.push(owned("  workspace list                 - List all workspaces"));
    lines.push(owned("  workspace rename <old> <new>   - Rename a workspace"));
    lines.push(owned("  crawl <url> [threads]          - Passively crawl a URL"));
    lines.push(owned("  fuzz <url> [wordlist] [threads] - Actively fuzz a URL"));
    lines.push(owned("  plugin list                    - List all plugins"));
    lines.push(owned("  plugin register <file> <name>  - Register a plugin"));
    lines.push(owned("  plugin unregister <name>       - Unregister a plugin"));
    lines.push(owned("  clear                          - Clear the output"));
    lines.push(owned("  help                           - Show this help message"));
    lines.push(owned("  exit, quit                     - Exit the REPL"));
    assert(string_views(lines@) =~= help_lines());
    lines
}

fn one_line(a: String) -> (lines: Vec<String>)
    ensures
        string_views(lines@) == seq![a@],
{
    let mut lines: Vec<String> = Vec::new();
    lines.push(a);
    assert(string_views(lines@) =~= seq![a@]);
    lines
}

fn two_lines(a: String, b: String) -> (lines: Vec<String>)
    ensures
        string_views(lines@) == seq![a@, b@],
{
    let mut lines: Vec<String> = Vec::new();
    lines.push(a);
    lines.push(b);
    assert(string_views(lines@) =~= seq![a@, b@]);
    lines
}

fn word_at<'a>(parts: &'a Vec<String>, i: usize, fallback: &'a str) -> (word: &'a str)
    ensures
        word@ == word_or(string_views(parts@), i as int, fallback@),
{
    if i < parts.len() {
        parts[i].as_str()
    } else {
        fallback
    }
}

fn is_word(parts: &Vec<String>, i: usize, word: &str) -> (b: bool)
    requires
        i < parts.len(),
    ensures
        b == (string_views(parts@)[i as int] == word@),
{
    str_eq(parts[i].as_str(), word)
}

fn init_reply(parts: &Vec<String>) -> (lines: Vec<String>)
    ensures
        string_views(lines@) == init_lines(string_views(parts@)),
{
    let mut lines: Vec<String> = Vec::new();
    lines.push(
        owned("Initializing Rinzler at: ").concat(word_at(parts, 1, "~/.config/rinzler/database")),
    );
    lines.push(owned("Note: Interactive prompts not yet supported in TUI mode"));
    lines.push(owned("Use CLI mode for initial setup: rinzler init"));
    assert(string_views(lines@) =~= init_lines(string_views(parts@)));
    lines
}

fn workspace_reply(parts: &Vec<String>) -> (lines: Vec<String>)
    ensures
        string_views(lines@) == workspace_lines(string_views(parts@)),
{
    if parts.len() < 2 {
        two_lines(
            owned("Error: workspace command requires a subcommand"),
            owned("Try: workspace create|remove|list|rename"),
        )
    } else if is_word(parts, 1, "create") {
        if parts.len() > 2 {
            two_lines(
                owned("Creating workspace: ").concat(parts[2].as_str()),
                owned("TODO: Implement workspace creation"),
            )
        } else {
            one_line(owned("Error: workspace create requires a name"))
        }
    } else if is_word(parts, 1, "remove") {
        if parts.len() > 2 {
            two_lines(
                owned("Removing workspace: ").concat(parts[2].as_str()),
                owned("TODO: Implement workspace removal"),
            )
        } else {
            one_line(owned("Error: workspace remove requires a name"))
        }
    } else if is_word(parts, 1, "list") {
        two_lines(owned("Listing workspaces:"), owned("TODO: Implement workspace listing"))
    } else if is_word(parts, 1, "rename") {
        if parts.len() >= 4 {
            let mut first = owned("Renaming workspace from '");
            first.append(parts[2].as_str());
            first.append("' to '");
            first.append(parts[3].as_str());
            first.append("'");
            two_lines(first, owned("TODO: Implement workspace renaming"))
        } else {
            one_line(owned("Error: workspace rename requires old and new names"))
        }
    } else {
        one_line(owned("Error: unknown workspace subcommand: ").concat(parts[1].as_str()))
    }
}

fn crawl_reply(parts: &Vec<String>) -> (lines: Vec<String>)
    ensures
        string_views(lines@) == crawl_lines(string_views(parts@)),
{
    if parts.len() > 1 {
        let mut first = owned("Crawling URL: ");
        first.append(parts[1].as_str());
        first.append(" with ");
        first.append(word_at(parts, 2, "10"));
        first.append(" threads");
        two_lines(first, owned("TODO: Implement crawling logic"))
    } else {
        one_line(owned("Error: crawl requires a URL"))
    }
}

fn fuzz_reply(parts: &Vec<String>) -> (lines: Vec<String>)
    ensures
        string_views(lines@) == fuzz_lines(string_views(parts@)),
{
    if parts.len() > 1 {
        let mut lines: Vec<String> = Vec::new();
        lines.push(owned("Fuzzing URL: ").concat(parts[1].as_str()));
        lines.push(
            owned("  Wordlist: ").concat(
                word_at(parts, 2, "~/.config/rinzler/wordlists/default.txt"),
            ),
        );
        lines.push(owned("  Threads: ").concat(word_at(parts, 3, "10")));
        lines.push(owned("TODO: Implement fuzzing logic"));
        assert(string_views(lines@) =~= fuzz_lines(string_views(parts@)));
        lines
    } else {
        one_line(owned("Error: fuzz requires a URL"))
    }
}

fn plugin_reply(parts: &Vec<String>) -> (lines: Vec<String>)
    ensures
        string_views(lines@) == plugin_lines(string_views(parts@)),
{
    if parts.len() < 2 {
        two_lines(
            owned("Error: plugin command requires a subcommand"),
            owned("Try: plugin list|register|unregister"),
        )
    } else if is_word(parts, 1, "list") {
        two_lines(owned("Listing plugins:"), owned("TODO: Implement plugin listing"))
    } else if is_word(parts, 1, "register") {
        if parts.len() >= 4 {
            let mut first = owned("Registering plugin '");
            first.append(parts[3].as_str());
            first.append("' from file: ");
            first.append(parts[2].as_str());
            two_lines(first, owned("TODO: Implement plugin registration"))
        } else {
            one_line(owned("Error: plugin register requires file path and name"))
        }
    } else if is_word(parts, 1, "unregister") {
        if parts.len() > 2 {
            two_lines(
                owned("Unregistering plugin: ").concat(parts[2].as_str()),
                owned("TODO: Implement plugin unregistration"),
            )
        } else {
            one_line(owned("Error: plugin unregister requires a name"))
        }
    } else {
        one_line(owned("Error: unknown plugin subcommand: ").concat(parts[1].as_str()))
    }
}

/// The lines that answer the command with the words `parts`, for a command
/// that only prints.
pub fn reply(parts: &Vec<String>) -> (lines: Vec<String>)
    requires
        parts@.len() > 0,
    ensures
        string_views(lines@) == reply_lines(string_views(parts@)),
{
    if is_word(parts, 0, "help") {
        help()
    } else if is_word(parts, 0, "init") {
        init_reply(parts)
    } else if is_word(parts, 0, "workspace") {
        workspace_reply(parts)
    } else if is_word(parts, 0, "crawl") {
        crawl_reply(parts)
    } else if is_word(parts, 0, "fuzz") {
        fuzz_reply(parts)
    } else if is_word(parts, 0, "plugin") {
        plugin_reply(parts)
    } else {
        two_lines(
            owned("Unknown command: ").concat(parts[0].as_str()),
            owned("Type 'help' for available commands"),
        )
    }
}

/// A line without the carriage return at its end, if it has one.
pub open spec fn without_carriage_return(line: Seq<char>) -> Seq<char> {
    if line.len() > 0 && line.last() == '\r' {
        line.drop_last()
    } else {
        line
    }
}

/// The lines of a text as `str::lines` gives them: a line ends at a line
/// feed, and a carriage return just before that line feed is dropped with
/// it. A line feed at the very end starts no further line.
pub open spec fn text_lines(s: Seq<char>) -> Seq<Seq<char>>
    decreases s.len(),
{
    if s.len() == 0 {
        Seq::empty()
    } else {
        let n = first_line_len(s) as int;
        if n < s.len() {
            seq![without_carriage_return(s.subrange(0, n))] + text_lines(
                s.subrange(n + 1, s.len() as int),
            )
        } else {
            seq![s]
        }
    }
}

/// The lines of `content`.
pub fn split_lines(content: &str) -> (lines: Vec<String>)
    ensures
        string_views(lines@) == text_lines(content@),
{
    let v = chars_of(content);
    let mut lines: Vec<String> = Vec::new();
    let mut pos: usize = 0;
    assert(v@.subrange(0, v@.len() as int) =~= v@);
    assert(string_views(lines@) + text_lines(v@) =~= text_lines(content@));
    while pos < v.len()
        invariant
            pos <= v.len(),
            v@ == content@,
            string_views(lines@) + text_lines(v@.subrange(pos as int, v@.len() as int))
                == text_lines(content@),
        decreases v.len() - pos,
    {
        let end = line_end(&v, pos);
        let ghost rest = v@.subrange(pos as int, v@.len() as int);
        let ghost before = lines@;
        proof {
            lemma_first_line_len_bound(rest);
            assert(rest.subrange(0, end - pos) =~= v@.subrange(pos as int, end as int));
        }
        if end < v.len() {
            let stop: usize = if end > pos && v[end - 1] == '\r' {
                end - 1
            } else {
                end
            };
            let line = string_of(&v, pos, stop);
            proof {
                let raw = v@.subrange(pos as int, end as int);
                assert(line@ =~= without_carriage_return(raw)) by {
                    if end > pos && v@[end - 1] == '\r' {
                        assert(raw.last() == '\r');
                        assert(raw.drop_last() =~= v@.subrange(pos as int, stop as int));
                    } else if end > pos {
                        assert(raw.last() == v@[end - 1]);
                    }
                }
                assert(rest.subrange(end - pos + 1, rest.len() as int) =~= v@.subrange(
                    end + 1,
                    v@.len() as int,
                ));
            }
            lines.push(line);
            proof {
                assert(string_views(lines@) =~= string_views(before).push(
                    without_carriage_return(v@.subrange(pos as int, end as int)),
                ));
                assert(string_views(before) + (seq![
                    without_carriage_return(v@.subrange(pos as int, end as int)),
                ] + text_lines(v@.subrange(end + 1, v@.len() as int))) =~= string_views(lines@)
                    + text_lines(v@.subrange(end + 1, v@.len() as int)));
            }
            pos = end + 1;
        } else {
            let line = string_of(&v, pos, end);
            lines.push(line);
            proof {
                assert(rest =~= v@.subrange(pos as int, end as int));
                assert(string_views(lines@) =~= string_views(before).push(rest));
                assert(v@.subrange(end as int, v@.len() as int) =~= Seq::<char>::empty());
                assert(string_views(before) + seq![rest] =~= string_views(lines@) + text_lines(
                    v@.subrange(end as int, v@.len() as int),
                ));
            }
            pos = end;
        }
    }
    assert(v@.subrange(pos as int, v@.len() as int) =~= Seq::<char>::empty());
    assert(string_views(lines@) + Seq::<Seq<char>>::empty() =~= string_views(lines@));
    lines
}

/// The state of the interactive prompt.
pub struct App {
    input: String,
    history: Vec<String>,
    output: Vec<String>,
    cursor_position: usize,
    should_quit: bool,
    scroll_offset: usize,
    history_index: Option<usize>,
    temp_input: String,
    exit_mode: ExitMode,
    awaiting_save_confirmation: bool,
}

impl View for App {
    type V = AppView;

    closed spec fn view(&self) -> AppView {
        AppView {
            input: self.input@,
            history: string_views(self.history@),
            output: string_views(self.output@),
            cursor_position: self.cursor_position as nat,
            should_quit: self.should_quit,
            scroll_offset: self.scroll_offset as nat,
            history_index: match self.history_index {
                Some(i) => Some(i as nat),
                None => None,
            },
            temp_input: self.temp_input@,
            exit_mode: self.exit_mode,
            awaiting_save_confirmation: self.awaiting_save_confirmation,
        }
    }
}

proof fn lemma_keep_last_views(before: Seq<String>, limit: nat)
    ensures
        string_views(keep_last(before, limit)) == keep_last(string_views(before), limit),
{
    assert(string_views(keep_last(before, limit)) =~= keep_last(string_views(before), limit));
}

impl App {
    /// The prompt as it starts: nothing typed, no history, and the greeting
    /// as output.
    pub fn new() -> (app: App)
        ensures
            app@ == initial_app(),
            app_ok(app@),
    {
        let app = App {
            input: String::new(),
            history: Vec::new(),
            output: welcome(),
            cursor_position: 0,
            should_quit: false,
            scroll_offset: 0,
            history_index: None,
            temp_input: String::new(),
            exit_mode: ExitMode::NotRequested,
            awaiting_save_confirmation: false,
        };
        assert(app@.history =~= Seq::<Seq<char>>::empty());
        app
    }

    /// Adds a line of output. Of the lines the last `MAX_OUTPUT_LINES` are
    /// kept, and the view jumps back to the end.
    pub fn add_output(&mut self, message: String)
        ensures
            final(self)@ == with_output(old(self)@, message@),
    {
        let ghost before = self.output@;
        self.output.push(message);
        assert(string_views(self.output@) =~= string_views(before).push(message@));
        let ghost pushed = self.output@;
        trim_front(&mut self.output, MAX_OUTPUT_LINES);
        proof {
            lemma_keep_last_views(pushed, MAX_OUTPUT_LINES as nat);
        }
        self.scroll_offset = 0;
    }

    fn add_outputs(&mut self, lines: Vec<String>)
        ensures
            final(self)@ == with_outputs(old(self)@, string_views(lines@)),
            final(self)@.history_index == old(self)@.history_index,
    {
        let ghost lv = string_views(lines@);
        let mut i: usize = 0;
        assert(lv.take(0) =~= Seq::<Seq<char>>::empty());
        while i < lines.len()
            invariant
                i <= lines.len(),
                lv == string_views(lines@),
                self@ == with_outputs(old(self)@, lv.take(i as int)),
                self@.history_index == old(self)@.history_index,
            decreases lines.len() - i,
        {
            proof {
                assert(lv.take(i + 1).drop_last() =~= lv.take(i as int));
                assert(lv.take(i + 1).last() == lines@[i as int]@);
            }
            self.add_output(lines[i].clone());
            i += 1;
        }
        assert(lv.take(i as int) =~= lv);
    }

    /// Shows the entry of the history before the one shown, beginning with
    /// the newest. What was typed is remembered.
    pub fn navigate_history_backward(&mut self)
        requires
            app_ok(old(self)@),
        ensures
            final(self)@ == stepped_back(old(self)@),
            app_ok(final(self)@),
    {
        if self.history.len() == 0 {
            return ;
        }
        if self.history_index.is_none() {
            self.temp_input = self.input.clone();
        }
        let index: usize = match self.history_index {
            None => self.history.len() - 1,
            Some(i) => if i == 0 {
                0
            } else {
                i - 1
            },
        };
        self.history_index = Some(index);
        self.input = self.history[index].clone();
        self.cursor_position = self.input.as_str().as_bytes().len();
    }

    /// Shows the entry of the history after the one shown; past the newest
    /// comes what was typed before.
    pub fn navigate_history_forward(&mut self)
        requires
            app_ok(old(self)@),
        ensures
            final(self)@ == stepped_forward(old(self)@),
            app_ok(final(self)@),
    {
        if self.history.len() == 0 {
            return ;
        }
        match self.history_index {
            None => {},
            Some(i) => {
                if i >= self.history.len() - 1 {
                    self.input = self.temp_input.clone();
                    self.cursor_position = self.input.as_str().as_bytes().len();
                    self.history_index = None;
                    self.temp_input = String::new();
                } else {
                    self.history_index = Some(i + 1);
                    self.input = self.history[i + 1].clone();
                    self.cursor_position = self.input.as_str().as_bytes().len();
                }
            },
        }
    }

    /// Asks the prompt to end in the way `mode`.
    pub fn request_exit(&mut self, mode: ExitMode) -> (action: ReplAction)
        ensures
            (final(self)@, action) == exit_requested(old(self)@, mode),
            app_ok(old(self)@) ==> app_ok(final(self)@),
    {
        self.exit_mode = mode;
        match mode {
            ExitMode::Normal => {
                if self.history.len() > 0 {
                    self.awaiting_save_confirmation = true;
                    self.add_output(String::new());
                    self.add_output(owned("Save command history to ~/.rinzler_history? [y/N]:"));
                } else {
                    self.should_quit = true;
                }
                ReplAction::Nothing
            },
            ExitMode::ForceQuit => {
                self.should_quit = true;
                ReplAction::Nothing
            },
            ExitMode::WriteQuit => {
                self.should_quit = true;
                if self.history.len() > 0 {
                    ReplAction::SaveHistory
                } else {
                    ReplAction::Nothing
                }
            },
            ExitMode::NotRequested => ReplAction::Nothing,
        }
    }

    /// Takes the answer to the question about saving, in lower case and
    /// without white space around it.
    pub fn confirm_save(&mut self, answer: &str) -> (action: ReplAction)
        ensures
            (final(self)@, action) == confirmed(old(self)@, answer@),
            app_ok(old(self)@) ==> app_ok(final(self)@),
    {
        self.awaiting_save_confirmation = false;
        self.should_quit = true;
        if str_eq(answer, "y") || str_eq(answer, "yes") {
            ReplAction::SaveHistory
        } else {
            self.add_output(owned("History not saved."));
            ReplAction::Nothing
        }
    }

    /// Takes the answer to the question about saving as the user typed it.
    pub fn handle_save_confirmation(&mut self, response: &str) -> (action: ReplAction)
        ensures
            (final(self)@, action) == confirmed(old(self)@, lowercase(trimmed(response@))),
            app_ok(old(self)@) ==> app_ok(final(self)@),
    {
        let answer = to_lowercase(trim(response).as_str());
        self.confirm_save(answer.as_str())
    }

    /// Tells the prompt how saving the history went: `None` for success,
    /// else the text of the error.
    pub fn history_saved(&mut self, error: Option<String>)
        ensures
            final(self)@ == with_output(old(self)@, save_report(crate::data::opt_chars(error))),
    {
        match error {
            None => self.add_output(owned("History saved to ~/.rinzler_history")),
            Some(e) => self.add_output(owned("Error saving history: ").concat(e.as_str())),
        }
    }

    fn execute(&mut self, parts: Vec<String>) -> (action: ReplAction)
        ensures
            (final(self)@, action) == executed(old(self)@, string_views(parts@)),
            final(self)@.history_index == old(self)@.history_index,
    {
        if parts.len() == 0 {
            ReplAction::Nothing
        } else if is_word(&parts, 0, "exit") || is_word(&parts, 0, "quit") {
            self.request_exit(ExitMode::Normal)
        } else if is_word(&parts, 0, ":q!") {
            self.request_exit(ExitMode::ForceQuit)
        } else if is_word(&parts, 0, ":wq!") || is_word(&parts, 0, "ZZ") {
            self.request_exit(ExitMode::WriteQuit)
        } else if is_word(&parts, 0, "clear") {
            self.output = Vec::new();
            assert(string_views(self.output@) =~= Seq::<Seq<char>>::empty());
            ReplAction::Nothing
        } else {
            let lines = reply(&parts);
            self.add_outputs(lines);
            ReplAction::Nothing
        }
    }

    /// Takes a line that the user entered.
    pub fn handle_input(&mut self, input: String) -> (action: ReplAction)
        ensures
            (final(self)@, action) == handled(old(self)@, input@),
            app_ok(old(self)@) ==> app_ok(final(self)@),
    {
        if input.as_str().unicode_len() == 0 {
            return ReplAction::Nothing;
        }
        if self.awaiting_save_confirmation {
            return self.handle_save_confirmation(input.as_str());
        }
        let ghost before = self.history@;
        self.history.push(input.clone());
        assert(string_views(self.history@) =~= string_views(before).push(input@));
        let ghost pushed = self.history@;
        trim_front(&mut self.history, MAX_HISTORY);
        proof {
            lemma_keep_last_views(pushed, MAX_HISTORY as nat);
        }
        self.history_index = None;
        self.temp_input = String::new();
        self.add_output(owned("> ").concat(input.as_str()));
        let parts = split_words(input.as_str());
        self.execute(parts)
    }

    /// Takes the history from the content of its file: of its lines the
    /// last `MAX_HISTORY` become the history, and no entry is shown.
    pub fn load_history_from_text(&mut self, content: &str)
        ensures
            final(self)@ == (AppView {
                history: keep_last(text_lines(content@), MAX_HISTORY as nat),
                history_index: None,
                ..old(self)@
            }),
            app_ok(final(self)@),
    {
        let mut lines = split_lines(content);
        let ghost all = lines@;
        trim_front(&mut lines, MAX_HISTORY);
        proof {
            lemma_keep_last_views(all, MAX_HISTORY as nat);
        }
        self.history = lines;
        self.history_index = None;
    }

    /// The history as the content of its file: one entry on a line.
    pub fn history_text(&self) -> (text: String)
        ensures
            text@ == join_lines(self@.history),
    {
        write_lines(&self.history)
    }

    /// The line that is being typed.
    pub fn input(&self) -> (s: &str)
        ensures
            s@ == self@.input,
    {
        self.input.as_str()
    }

    /// The lines shown, the oldest first.
    pub fn output(&self) -> (lines: &Vec<String>)
        ensures
            string_views(lines@) == self@.output,
    {
        &self.output
    }

    /// The lines entered so far, the oldest first.
    pub fn history(&self) -> (lines: &Vec<String>)
        ensures
            string_views(lines@) == self@.history,
    {
        &self.history
    }

    /// Whether the prompt is to end.
    pub fn should_quit(&self) -> (b: bool)
        ensures
            b == self@.should_quit,
    {
        self.should_quit
    }

    /// Whether the prompt waits for the answer about saving.
    pub fn awaiting_save_confirmation(&self) -> (b: bool)
        ensures
            b == self@.awaiting_save_confirmation,
    {
        self.awaiting_save_confirmation
    }

    /// How the prompt was asked to end.
    pub fn exit_mode(&self) -> (m: ExitMode)
        ensures
            m == self@.exit_mode,
    {
        self.exit_mode
    }

    /// The position of the cursor in the input, in bytes.
    pub fn cursor_position(&self) -> (n: usize)
        ensures
            n == self@.cursor_position,
    {
        self.cursor_position
    }
}

} // verus!
