// The interactive prompt, line by line.

use rinzler::repl::{reply, split_lines, App, ExitMode, ReplAction, MAX_HISTORY, MAX_OUTPUT_LINES};
use rinzler::wordlist::write_lines;

fn strings(items: &[&str]) -> Vec<String> {
    items.iter().map(|s| s.to_string()).collect()
}

fn enter(app: &mut App, line: &str) -> ReplAction {
    app.handle_input(line.to_string())
}

fn last_lines(app: &App, n: usize) -> Vec<String> {
    let output = app.output();
    output[output.len() - n..].to_vec()
}

#[test]
fn test_new_app() {
    let app = App::new();
    assert_eq!(app.input(), "");
    assert!(app.history().is_empty());
    assert!(!app.should_quit());
    assert!(!app.awaiting_save_confirmation());
    assert_eq!(app.exit_mode(), ExitMode::NotRequested);
    assert_eq!(app.cursor_position(), 0);
    let output = app.output();
    assert_eq!(output.len(), 15);
    assert_eq!(output[0], "");
    assert!(output[1].starts_with("    ╔═"));
    assert!(output[9].contains("Interactive REPL Interface"));
    assert_eq!(output[11], "        ");
    assert_eq!(output[12], "");
    assert_eq!(output[13], "  Type 'help' for available commands, 'exit' or 'quit' to exit.");
    assert_eq!(output[14], "");
}

#[test]
fn test_add_output_keeps_the_last_lines() {
    let mut app = App::new();
    for n in 0..MAX_OUTPUT_LINES + 5 {
        app.add_output(n.to_string());
    }
    assert_eq!(app.output().len(), MAX_OUTPUT_LINES);
    assert_eq!(app.output()[0], "5");
    assert_eq!(app.output()[MAX_OUTPUT_LINES - 1], (MAX_OUTPUT_LINES + 4).to_string());
}

#[test]
fn test_empty_input_does_nothing() {
    let mut app = App::new();
    assert_eq!(enter(&mut app, ""), ReplAction::Nothing);
    assert!(app.history().is_empty());
    assert_eq!(app.output().len(), 15);
}

#[test]
fn test_blank_input_is_echoed_and_remembered() {
    let mut app = App::new();
    assert_eq!(enter(&mut app, "   "), ReplAction::Nothing);
    assert_eq!(app.history(), &strings(&["   "]));
    assert_eq!(last_lines(&app, 1), strings(&[">    "]));
}

#[test]
fn test_help() {
    let mut app = App::new();
    assert_eq!(enter(&mut app, "help"), ReplAction::Nothing);
    let lines = last_lines(&app, 15);
    assert_eq!(lines[0], "> help");
    assert_eq!(lines[1], "Available commands:");
    assert_eq!(lines[2], "  init [path]                    - Initialize Rinzler configuration");
    assert_eq!(lines[14], "  exit, quit                     - Exit the REPL");
    assert_eq!(app.output().len(), 30);
}

#[test]
fn test_replies() {
    let cases: Vec<(&str, Vec<&str>)> = vec![
        (
            "init",
            vec![
                "Initializing Rinzler at: ~/.config/rinzler/database",
                "Note: Interactive prompts not yet supported in TUI mode",
                "Use CLI mode for initial setup: rinzler init",
            ],
        ),
        ("init /tmp/x extra", vec![
            "Initializing Rinzler at: /tmp/x",
            "Note: Interactive prompts not yet supported in TUI mode",
            "Use CLI mode for initial setup: rinzler init",
        ]),
        (
            "workspace",
            vec![
                "Error: workspace command requires a subcommand",
                "Try: workspace create|remove|list|rename",
            ],
        ),
        ("workspace create", vec!["Error: workspace create requires a name"]),
        ("workspace create w", vec!["Creating workspace: w", "TODO: Implement workspace creation"]),
        ("workspace remove", vec!["Error: workspace remove requires a name"]),
        ("workspace remove w", vec!["Removing workspace: w", "TODO: Implement workspace removal"]),
        ("workspace list", vec!["Listing workspaces:", "TODO: Implement workspace listing"]),
        ("workspace rename a", vec!["Error: workspace rename requires old and new names"]),
        (
            "workspace rename a b",
            vec!["Renaming workspace from 'a' to 'b'", "TODO: Implement workspace renaming"],
        ),
        ("workspace drop", vec!["Error: unknown workspace subcommand: drop"]),
        ("crawl", vec!["Error: crawl requires a URL"]),
        (
            "crawl http://h",
            vec!["Crawling URL: http://h with 10 threads", "TODO: Implement crawling logic"],
        ),
        (
            "  crawl   http://h \t 4 ",
            vec!["Crawling URL: http://h with 4 threads", "TODO: Implement crawling logic"],
        ),
        ("fuzz", vec!["Error: fuzz requires a URL"]),
        (
            "fuzz http://h",
            vec![
                "Fuzzing URL: http://h",
                "  Wordlist: ~/.config/rinzler/wordlists/default.txt",
                "  Threads: 10",
                "TODO: Implement fuzzing logic",
            ],
        ),
        (
            "fuzz http://h words.txt 3",
            vec![
                "Fuzzing URL: http://h",
                "  Wordlist: words.txt",
                "  Threads: 3",
                "TODO: Implement fuzzing logic",
            ],
        ),
        (
            "plugin",
            vec!["Error: plugin command requires a subcommand", "Try: plugin list|register|unregister"],
        ),
        ("plugin list", vec!["Listing plugins:", "TODO: Implement plugin listing"]),
        ("plugin register f", vec!["Error: plugin register requires file path and name"]),
        (
            "plugin register f n",
            vec!["Registering plugin 'n' from file: f", "TODO: Implement plugin registration"],
        ),
        ("plugin unregister", vec!["Error: plugin unregister requires a name"]),
        (
            "plugin unregister n",
            vec!["Unregistering plugin: n", "TODO: Implement plugin unregistration"],
        ),
        ("plugin x", vec!["Error: unknown plugin subcommand: x"]),
        ("HELP", vec!["Unknown command: HELP", "Type 'help' for available commands"]),
        ("dance now", vec!["Unknown command: dance", "Type 'help' for available commands"]),
    ];
    for (line, expected) in cases {
        let parts: Vec<String> = line.split_whitespace().map(String::from).collect();
        assert_eq!(reply(&parts), strings(&expected), "{}", line);
        let mut app = App::new();
        assert_eq!(enter(&mut app, line), ReplAction::Nothing);
        let shown = last_lines(&app, expected.len() + 1);
        assert_eq!(shown[0], format!("> {}", line));
        assert_eq!(shown[1..].to_vec(), strings(&expected));
        assert!(!app.should_quit());
    }
}

#[test]
fn test_clear() {
    let mut app = App::new();
    enter(&mut app, "help");
    assert_eq!(enter(&mut app, "clear"), ReplAction::Nothing);
    assert!(app.output().is_empty());
    assert_eq!(app.history(), &strings(&["help", "clear"]));
}

#[test]
fn test_history_keeps_the_last_lines() {
    let mut app = App::new();
    for n in 0..MAX_HISTORY + 2 {
        enter(&mut app, &format!("cmd{}", n));
    }
    assert_eq!(app.history().len(), MAX_HISTORY);
    assert_eq!(app.history()[0], "cmd2");
    assert_eq!(app.history()[MAX_HISTORY - 1], format!("cmd{}", MAX_HISTORY + 1));
}

#[test]
fn test_walk_through_history() {
    let mut app = App::new();
    app.navigate_history_backward();
    app.navigate_history_forward();
    assert_eq!(app.input(), "");
    enter(&mut app, "first");
    enter(&mut app, "sécond");
    app.navigate_history_forward();
    assert_eq!(app.input(), "");
    app.navigate_history_backward();
    assert_eq!(app.input(), "sécond");
    assert_eq!(app.cursor_position(), 7);
    app.navigate_history_backward();
    assert_eq!(app.input(), "first");
    assert_eq!(app.cursor_position(), 5);
    app.navigate_history_backward();
    assert_eq!(app.input(), "first");
    app.navigate_history_forward();
    assert_eq!(app.input(), "sécond");
    app.navigate_history_forward();
    assert_eq!(app.input(), "");
    assert_eq!(app.cursor_position(), 0);
    app.navigate_history_forward();
    assert_eq!(app.input(), "");
}

#[test]
fn test_exit_without_history() {
    let mut app = App::new();
    assert_eq!(app.request_exit(ExitMode::Normal), ReplAction::Nothing);
    assert!(app.should_quit());
    assert!(!app.awaiting_save_confirmation());
    assert_eq!(app.exit_mode(), ExitMode::Normal);
    let mut app = App::new();
    assert_eq!(app.request_exit(ExitMode::WriteQuit), ReplAction::Nothing);
    assert!(app.should_quit());
    let mut app = App::new();
    assert_eq!(app.request_exit(ExitMode::NotRequested), ReplAction::Nothing);
    assert!(!app.should_quit());
}

#[test]
fn test_exit_asks_about_saving() {
    for word in ["exit", "quit"] {
        let mut app = App::new();
        assert_eq!(enter(&mut app, word), ReplAction::Nothing);
        assert!(!app.should_quit());
        assert!(app.awaiting_save_confirmation());
        assert_eq!(app.exit_mode(), ExitMode::Normal);
        assert_eq!(
            last_lines(&app, 3),
            vec![
                format!("> {}", word),
                String::new(),
                "Save command history to ~/.rinzler_history? [y/N]:".to_string()
            ]
        );
        assert_eq!(enter(&mut app, "  YES \n"), ReplAction::SaveHistory);
        assert!(app.should_quit());
        assert!(!app.awaiting_save_confirmation());
        // The answer is no command: it does not join the history.
        assert_eq!(app.history(), &strings(&[word]));
        app.history_saved(None);
        assert_eq!(last_lines(&app, 1), strings(&["History saved to ~/.rinzler_history"]));
    }
}

#[test]
fn test_exit_declined() {
    for answer in ["n", "no", "yes please", "ja", " "] {
        let mut app = App::new();
        enter(&mut app, "exit");
        assert_eq!(enter(&mut app, answer), ReplAction::Nothing, "{:?}", answer);
        assert!(app.should_quit());
        assert_eq!(last_lines(&app, 1), strings(&["History not saved."]));
    }
    let mut app = App::new();
    enter(&mut app, "exit");
    assert_eq!(app.handle_save_confirmation("Y"), ReplAction::SaveHistory);
    let mut app = App::new();
    enter(&mut app, "exit");
    assert_eq!(app.confirm_save("Y"), ReplAction::Nothing);
}

#[test]
fn test_force_quit_and_write_quit() {
    let mut app = App::new();
    assert_eq!(enter(&mut app, ":q!"), ReplAction::Nothing);
    assert!(app.should_quit());
    assert!(!app.awaiting_save_confirmation());
    assert_eq!(app.exit_mode(), ExitMode::ForceQuit);
    for word in [":wq!", "ZZ"] {
        let mut app = App::new();
        assert_eq!(enter(&mut app, word), ReplAction::SaveHistory);
        assert!(app.should_quit());
        assert_eq!(app.exit_mode(), ExitMode::WriteQuit);
        app.history_saved(Some("disk full".to_string()));
        assert_eq!(last_lines(&app, 1), strings(&["Error saving history: disk full"]));
    }
}

#[test]
fn test_split_lines() {
    assert!(split_lines("").is_empty());
    assert_eq!(split_lines("a"), strings(&["a"]));
    assert_eq!(split_lines("a\n"), strings(&["a"]));
    assert_eq!(split_lines("a\n\nb"), strings(&["a", "", "b"]));
    assert_eq!(split_lines("a\r\nb\r\n"), strings(&["a", "b"]));
    assert_eq!(split_lines("a\rb\r"), strings(&["a\rb\r"]));
    assert_eq!(split_lines("\r\n\n\r"), strings(&["", "", "\r"]));
    for text in ["", "x", "x\n", "\n", "a\r\nb", "a\r\r\n", "é\n\nü\r", "\r"] {
        let expected: Vec<String> = text.lines().map(String::from).collect();
        assert_eq!(split_lines(text), expected, "{:?}", text);
    }
}

#[test]
fn test_history_file_round_trip() {
    let mut app = App::new();
    enter(&mut app, "crawl http://h");
    enter(&mut app, "help");
    let text = app.history_text();
    assert_eq!(text, "crawl http://h\nhelp");
    let mut next = App::new();
    next.load_history_from_text(&text);
    assert_eq!(next.history(), app.history());
    next.navigate_history_backward();
    assert_eq!(next.input(), "help");
    assert_eq!(write_lines(&Vec::new()), "");
    assert_eq!(write_lines(&strings(&["only"])), "only");
}

#[test]
fn test_load_history_keeps_the_last_lines() {
    let lines: Vec<String> = (0..MAX_HISTORY + 7).map(|n| format!("cmd{}", n)).collect();
    let mut app = App::new();
    app.load_history_from_text(&lines.join("\r\n"));
    assert_eq!(app.history().len(), MAX_HISTORY);
    assert_eq!(app.history()[0], "cmd7");
    assert_eq!(app.history()[MAX_HISTORY - 1], format!("cmd{}", MAX_HISTORY + 6));
}
