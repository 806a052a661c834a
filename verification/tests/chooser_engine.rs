use zenzai_portal::chooser::{
    AppChooserConfig, AppChooserService, ChooserAction, ChooserError, ChooserEvent, ChooserRequest,
    ChooserState, DefaultMapping, RunnerType,
};
use zenzai_portal::command::Command;
use zenzai_portal::desktop::{parse_desktop_entry, RawDesktopEntry};
use zenzai_portal::picker::{picker_input, RunCommandError};

fn dmenu_runner() -> RunnerType {
    RunnerType::Dmenu(Command { command: String::from("/usr/bin/dmenu"), arguments: None })
}

fn service(defaults: Vec<(String, DefaultMapping)>) -> AppChooserService {
    AppChooserService {
        terminal_path: String::from("/usr/bin/kitty"),
        config: AppChooserConfig { enabled: true, runner: Some(dmenu_runner()), defaults },
    }
}

fn request(choices: &[&str], uri: Option<&str>, content_type: Option<&str>) -> ChooserRequest {
    ChooserRequest {
        choices: choices.iter().map(|s| String::from(*s)).collect(),
        uri: uri.map(String::from),
        content_type: content_type.map(String::from),
        activation_token: Some(String::from("token-abc")),
    }
}

fn raw_entry(name: Option<&str>, terminal: Option<&str>, exec_line: Option<&str>) -> RawDesktopEntry {
    RawDesktopEntry {
        name: name.map(String::from),
        terminal: terminal.map(String::from),
        exec_line: exec_line.map(String::from),
    }
}

#[test]
fn missing_runner_is_configuration_missing() {
    let s = AppChooserService {
        terminal_path: String::from("/usr/bin/kitty"),
        config: AppChooserConfig { enabled: true, runner: None, defaults: Vec::new() },
    };
    let req = request(&["a.desktop"], Some("\"file:///tmp/x\""), Some("\"text/plain\""));
    let (state, action) = s.start(&req);
    assert!(matches!(state, ChooserState::Finished));
    assert!(matches!(
        action,
        ChooserAction::Fail { error: ChooserError::ConfigurationMissing }
    ));
}

#[test]
fn missing_uri_or_content_type_is_invalid() {
    let s = service(Vec::new());
    let (_, action) = s.start(&request(&["a.desktop"], None, Some("text/plain")));
    assert!(matches!(action, ChooserAction::Fail { error: ChooserError::RequestInvalid }));
    let (_, action) = s.start(&request(&["a.desktop"], Some("file:///x"), None));
    assert!(matches!(action, ChooserAction::Fail { error: ChooserError::RequestInvalid }));
}

#[test]
fn no_default_and_no_candidates_fails_not_succeeds() {
    let s = service(Vec::new());
    let (state, action) = s.start(&request(&[], Some("\"file:///tmp/x\""), Some("\"text/plain\"")));
    assert!(matches!(state, ChooserState::Finished));
    assert!(matches!(action, ChooserAction::Fail { error: ChooserError::RequestInvalid }));
}

#[test]
fn command_mapping_launches_directly_with_input_file() {
    let defaults = vec![(
        String::from("text/*"),
        DefaultMapping::Command(Command {
            command: String::from("/usr/bin/editor"),
            arguments: Some(vec![String::from("--reuse")]),
        }),
    )];
    let s = service(defaults);
    let req = request(&[], Some("\"file:///tmp/notes.txt\""), Some("\"text/plain\""));
    let (state, action) = s.start(&req);
    match action {
        ChooserAction::Launch { command } => {
            assert_eq!(command.command, "/usr/bin/editor");
            assert_eq!(
                command.arguments,
                Some(vec![String::from("--reuse"), String::from("/tmp/notes.txt")])
            );
        }
        _ => panic!("expected a direct launch"),
    }
    match state {
        ChooserState::Launching { app_id, token } => {
            assert_eq!(app_id, "/usr/bin/editor");
            assert_eq!(token, "token-abc");
        }
        _ => panic!("expected to be launching"),
    }
}

#[test]
fn launch_success_responds_with_code_zero() {
    let defaults = vec![(
        String::from("text/*"),
        DefaultMapping::Command(Command { command: String::from("ed"), arguments: None }),
    )];
    let s = service(defaults);
    let req = request(&[], Some("/tmp/a"), Some("text/plain"));
    let (state, _) = s.start(&req);
    let (state, action) = s.step(state, ChooserEvent::LaunchFinished { outcome: Ok(()) });
    assert!(matches!(state, ChooserState::Finished));
    match action {
        ChooserAction::Respond { response } => {
            assert_eq!(response.code, 0);
            assert_eq!(response.app_id, "ed");
            assert_eq!(response.activation_token, "token-abc");
        }
        _ => panic!("expected a success response"),
    }
}

#[test]
fn launch_failure_is_execution_failure() {
    let defaults = vec![(
        String::from("text/*"),
        DefaultMapping::Command(Command { command: String::from("ed"), arguments: None }),
    )];
    let s = service(defaults);
    let (state, _) = s.start(&request(&[], Some("/tmp/a"), Some("text/plain")));
    let (_, action) = s.step(
        state,
        ChooserEvent::LaunchFinished {
            outcome: Err(RunCommandError::IOError(String::from("spawn failed"))),
        },
    );
    assert!(matches!(action, ChooserAction::Fail { error: ChooserError::ExecutionFailure }));
}

#[test]
fn fresh_token_is_synthesized_when_absent() {
    let defaults = vec![(
        String::from("*"),
        DefaultMapping::Command(Command { command: String::from("xdg-open"), arguments: None }),
    )];
    let s = service(defaults);
    let mut req = request(&[], Some("/tmp/a"), Some("text/plain"));
    req.activation_token = None;
    let (state, _) = s.start(&req);
    match state {
        ChooserState::Launching { token, .. } => {
            assert!(token.starts_with("token-"));
            assert!(token.len() > "token-".len());
            assert!(token["token-".len()..].chars().all(|c| c.is_ascii_digit()));
        }
        _ => panic!("expected to be launching"),
    }
}

#[test]
fn command_choice_runs_picker_then_launches_selection() {
    let gedit = Command { command: String::from("gedit"), arguments: None };
    let kate = Command { command: String::from("kate"), arguments: None };
    let defaults = vec![(
        String::from("text/*"),
        DefaultMapping::CommandChoice(vec![gedit, kate]),
    )];
    let s = service(defaults);
    let req = request(&[], Some("\"file:///tmp/x.txt\""), Some("\"text/markdown\""));
    let (state, action) = s.start(&req);
    match &action {
        ChooserAction::RunPicker { picker, options } => {
            assert_eq!(picker.command, "/usr/bin/dmenu");
            assert_eq!(options, &vec![String::from("gedit"), String::from("kate")]);
            assert_eq!(picker_input(options), "gedit\nkate");
        }
        _ => panic!("expected the picker to run"),
    }
    let (state, action) = s.step(
        state,
        ChooserEvent::PickerFinished { output: Ok(String::from("kate\n")) },
    );
    match action {
        ChooserAction::Launch { command } => {
            assert_eq!(command.command, "kate");
            assert_eq!(command.arguments, Some(vec![String::from("/tmp/x.txt")]));
        }
        _ => panic!("expected a launch after the pick"),
    }
    assert!(matches!(state, ChooserState::Launching { .. }));
}

#[test]
fn picker_selection_matching_no_option_fails() {
    let defaults = vec![(
        String::from("text/*"),
        DefaultMapping::CommandChoice(vec![Command {
            command: String::from("gedit"),
            arguments: None,
        }]),
    )];
    let s = service(defaults);
    let (state, _) = s.start(&request(&[], Some("/tmp/x"), Some("text/plain")));
    let (_, action) = s.step(
        state,
        ChooserEvent::PickerFinished { output: Ok(String::from("something else")) },
    );
    assert!(matches!(action, ChooserAction::Fail { error: ChooserError::PickerFailure }));
}

#[test]
fn picker_process_failure_fails() {
    let defaults = vec![(
        String::from("text/*"),
        DefaultMapping::CommandChoice(vec![Command {
            command: String::from("gedit"),
            arguments: None,
        }]),
    )];
    let s = service(defaults);
    let (state, _) = s.start(&request(&[], Some("/tmp/x"), Some("text/plain")));
    let (_, action) = s.step(
        state,
        ChooserEvent::PickerFinished { output: Err(RunCommandError::FailedToOpenStdin) },
    );
    assert!(matches!(action, ChooserAction::Fail { error: ChooserError::PickerFailure }));
}

#[test]
fn desktop_file_mapping_resolves_then_launches() {
    let defaults = vec![(
        String::from("application/pdf"),
        DefaultMapping::DesktopFile(String::from("viewer.desktop")),
    )];
    let s = service(defaults);
    let req = request(&[], Some("\"file:///tmp/doc.pdf\""), Some("\"application/pdf\""));
    let (state, action) = s.start(&req);
    match &action {
        ChooserAction::ResolveEntries { ids } => {
            assert_eq!(ids, &vec![String::from("viewer.desktop")]);
        }
        _ => panic!("expected entry resolution"),
    }
    let raw = raw_entry(Some("Viewer"), None, Some("/usr/bin/viewer --paged %f"));
    let (_, action) = s.step(
        state,
        ChooserEvent::EntriesResolved { entries: vec![Some(raw)] },
    );
    match action {
        ChooserAction::Launch { command } => {
            assert_eq!(command.command, "/usr/bin/viewer");
            assert_eq!(
                command.arguments,
                Some(vec![String::from("--paged"), String::from("/tmp/doc.pdf")])
            );
        }
        _ => panic!("expected a launch"),
    }
}

#[test]
fn desktop_file_mapping_missing_entry_is_resolution_not_found() {
    let defaults = vec![(
        String::from("application/pdf"),
        DefaultMapping::DesktopFile(String::from("viewer.desktop")),
    )];
    let s = service(defaults);
    let (state, _) = s.start(&request(&[], Some("/tmp/doc.pdf"), Some("application/pdf")));
    let (_, action) = s.step(state, ChooserEvent::EntriesResolved { entries: vec![None] });
    assert!(matches!(action, ChooserAction::Fail { error: ChooserError::ResolutionNotFound }));
}

#[test]
fn desktop_file_choice_picks_by_display_name_and_wraps_terminal() {
    let defaults = vec![(
        String::from("text/*"),
        DefaultMapping::DesktopFileChoice(vec![
            String::from("emacs.desktop"),
            String::from("helix.desktop"),
        ]),
    )];
    let s = service(defaults);
    let req = request(&[], Some("\"file:///tmp/x.txt\""), Some("\"text/plain\""));
    let (state, action) = s.start(&req);
    assert!(matches!(action, ChooserAction::ResolveEntries { .. }));
    let entries = vec![
        Some(raw_entry(Some("Emacs"), None, Some("emacs %f"))),
        Some(raw_entry(Some("Helix"), Some("true"), Some("hx %f"))),
    ];
    let (state, action) = s.step(state, ChooserEvent::EntriesResolved { entries });
    match &action {
        ChooserAction::RunPicker { options, .. } => {
            assert_eq!(options, &vec![String::from("Emacs"), String::from("Helix")]);
        }
        _ => panic!("expected the picker to run"),
    }
    let (_, action) = s.step(
        state,
        ChooserEvent::PickerFinished { output: Ok(String::from("Helix\n")) },
    );
    match action {
        ChooserAction::Launch { command } => {
            assert_eq!(command.command, "/usr/bin/kitty");
            assert_eq!(
                command.arguments,
                Some(vec![
                    String::from("-e"),
                    String::from("hx"),
                    String::from("/tmp/x.txt"),
                ])
            );
        }
        _ => panic!("expected a terminal-wrapped launch"),
    }
}

#[test]
fn single_resolving_candidate_bypasses_picker() {
    let s = service(Vec::new());
    let req = request(&["editor.desktop"], Some("\"file:///tmp/x.txt\""), Some("\"text/plain\""));
    let (state, action) = s.start(&req);
    match &action {
        ChooserAction::ResolveEntries { ids } => {
            assert_eq!(ids, &vec![String::from("editor.desktop")]);
        }
        _ => panic!("expected entry resolution of the candidates"),
    }
    let raw = raw_entry(Some("Editor"), None, Some("/usr/bin/editor %f"));
    let (state, action) = s.step(
        state,
        ChooserEvent::EntriesResolved { entries: vec![Some(raw)] },
    );
    match action {
        ChooserAction::Launch { command } => {
            assert_eq!(command.command, "/usr/bin/editor");
            assert_eq!(command.arguments, Some(vec![String::from("/tmp/x.txt")]));
        }
        _ => panic!("one resolving candidate must launch directly"),
    }
    assert!(matches!(state, ChooserState::Launching { .. }));
}

#[test]
fn several_candidates_go_through_the_picker() {
    let s = service(Vec::new());
    let req = request(
        &["a.desktop", "b.desktop"],
        Some("\"file:///tmp/x.txt\""),
        Some("\"text/plain\""),
    );
    let (state, _) = s.start(&req);
    let entries = vec![
        Some(raw_entry(Some("A"), None, Some("a %f"))),
        Some(raw_entry(Some("B"), None, Some("b %f"))),
    ];
    let (state, action) = s.step(state, ChooserEvent::EntriesResolved { entries });
    assert!(matches!(action, ChooserAction::RunPicker { .. }));
    let (_, action) = s.step(
        state,
        ChooserEvent::PickerFinished { output: Ok(String::from(" A \n")) },
    );
    match action {
        ChooserAction::Launch { command } => assert_eq!(command.command, "a"),
        _ => panic!("expected a launch of the picked entry"),
    }
}

#[test]
fn candidates_that_fail_to_resolve_are_skipped() {
    let s = service(Vec::new());
    let req = request(
        &["gone.desktop", "there.desktop"],
        Some("/tmp/x"),
        Some("text/plain"),
    );
    let (state, _) = s.start(&req);
    let entries = vec![None, Some(raw_entry(Some("There"), None, Some("there %f")))];
    let (_, action) = s.step(state, ChooserEvent::EntriesResolved { entries });
    match action {
        ChooserAction::Launch { command } => assert_eq!(command.command, "there"),
        _ => panic!("the one surviving candidate must launch directly"),
    }
}

#[test]
fn parse_drops_field_codes_and_defaults_name() {
    let raw = raw_entry(None, None, Some("/usr/bin/foo --bar %f"));
    let entry = parse_desktop_entry(&raw).unwrap();
    assert_eq!(entry.exec_cmd.command, "/usr/bin/foo");
    assert_eq!(entry.exec_cmd.arguments, Some(vec![String::from("--bar")]));
    assert_eq!(entry.name, "/usr/bin/foo --bar %f");
    assert!(!entry.is_terminal);
}

#[test]
fn parse_drops_double_at_tokens() {
    let raw = raw_entry(Some("X"), None, Some("run @@u %U --keep"));
    let entry = parse_desktop_entry(&raw).unwrap();
    assert_eq!(entry.exec_cmd.command, "run");
    assert_eq!(entry.exec_cmd.arguments, Some(vec![String::from("--keep")]));
}

#[test]
fn parse_terminal_truthy_spellings() {
    for spelling in ["true", "TRUE", "True", "1"] {
        let raw = raw_entry(Some("X"), Some(spelling), Some("x"));
        assert!(parse_desktop_entry(&raw).unwrap().is_terminal, "{spelling}");
    }
    for spelling in ["false", "yes", "0", ""] {
        let raw = raw_entry(Some("X"), Some(spelling), Some("x"));
        assert!(!parse_desktop_entry(&raw).unwrap().is_terminal, "{spelling}");
    }
}

#[test]
fn parse_without_exec_fails() {
    assert!(parse_desktop_entry(&raw_entry(Some("X"), Some("true"), None)).is_none());
}

#[test]
fn uri_normalization_strips_quotes_and_scheme() {
    let defaults = vec![(
        String::from("*"),
        DefaultMapping::Command(Command { command: String::from("open"), arguments: None }),
    )];
    let s = service(defaults);
    let req = request(&[], Some("\"file:///home/me/a b.txt\""), Some("\"text/plain\""));
    let (_, action) = s.start(&req);
    match action {
        ChooserAction::Launch { command } => {
            assert_eq!(command.arguments, Some(vec![String::from("/home/me/a b.txt")]));
        }
        _ => panic!("expected a launch"),
    }
}
