use zenzai_portal::command::Command;
use zenzai_portal::wildcard::{query_to_prefix, wildcard_get, wildcard_get_all};

fn table(entries: &[(&str, u32)]) -> Vec<(String, u32)> {
    let mut v: Vec<(String, u32)> = Vec::new();
    for (k, n) in entries {
        v.push((String::from(*k), *n));
    }
    v
}

#[test]
fn prefix_without_wildcard_is_identity() {
    assert_eq!(query_to_prefix(String::from("text/plain")), "text/plain");
    assert_eq!(query_to_prefix(String::from("")), "");
}

#[test]
fn prefix_cuts_at_first_star() {
    assert_eq!(query_to_prefix(String::from("text/*")), "text/");
    assert_eq!(query_to_prefix(String::from("*")), "");
    assert_eq!(query_to_prefix(String::from("a*b*c")), "a");
}

#[test]
fn broad_query_matches_specific_key() {
    let t = table(&[("text/plain", 1), ("image/png", 2)]);
    let hits = wildcard_get_all(&t, String::from("text/*"));
    assert_eq!(hits.len(), 1);
    assert_eq!(hits[0].0, "text/plain");
    assert_eq!(hits[0].1, 1);
}

#[test]
fn specific_query_matches_wildcard_key() {
    let t = table(&[("text/*", 7), ("image/png", 2)]);
    let hits = wildcard_get_all(&t, String::from("text/markdown"));
    assert_eq!(hits.len(), 1);
    assert_eq!(hits[0].0, "text/*");
    assert_eq!(hits[0].1, 7);
}

#[test]
fn exact_match_without_wildcards() {
    let t = table(&[("text/plain", 1)]);
    let hit = wildcard_get(&t, String::from("text/plain"));
    assert!(matches!(hit, Some((_, 1))));
}

#[test]
fn no_wildcard_and_no_matching_key_returns_none() {
    let t = table(&[("image/png", 2), ("audio/ogg", 3)]);
    assert!(wildcard_get(&t, String::from("text/plain")).is_none());
    assert!(wildcard_get_all(&t, String::from("text/plain")).is_empty());
}

#[test]
fn first_of_several_matches_wins() {
    let t = table(&[("text/*", 1), ("text/plain", 2), ("*", 3)]);
    let hit = wildcard_get(&t, String::from("text/plain")).unwrap();
    assert_eq!(hit.0, "text/*");
    assert_eq!(hit.1, 1);
}

#[test]
fn results_keep_table_order() {
    let t = table(&[("text/*", 1), ("image/png", 2), ("text/plain", 3), ("*", 4)]);
    let hits = wildcard_get_all(&t, String::from("text/plain"));
    let keys: Vec<&str> = hits.iter().map(|p| p.0.as_str()).collect();
    assert_eq!(keys, vec!["text/*", "text/plain", "*"]);
}

#[test]
fn empty_query_prefix_matches_everything() {
    let t = table(&[("a", 1), ("b", 2)]);
    let hits = wildcard_get_all(&t, String::from("*"));
    assert_eq!(hits.len(), 2);
}

#[test]
fn with_input_file_appends_path() {
    let cmd = Command {
        command: String::from("editor"),
        arguments: Some(vec![String::from("--new-window")]),
    };
    let with_file = cmd.with_input_file(String::from("/tmp/notes.txt"));
    assert_eq!(with_file.command, "editor");
    assert_eq!(
        with_file.arguments,
        Some(vec![String::from("--new-window"), String::from("/tmp/notes.txt")])
    );
}

#[test]
fn with_input_file_twice_appends_twice() {
    let cmd = Command { command: String::from("editor"), arguments: None };
    let twice = cmd
        .with_input_file(String::from("/tmp/a"))
        .with_input_file(String::from("/tmp/b"));
    assert_eq!(
        twice.arguments,
        Some(vec![String::from("/tmp/a"), String::from("/tmp/b")])
    );
}

#[test]
fn with_terminal_wraps_the_command() {
    let cmd = Command {
        command: String::from("vim"),
        arguments: Some(vec![String::from("-R")]),
    };
    let wrapped = cmd.with_terminal("/usr/bin/kitty");
    assert_eq!(wrapped.command, "/usr/bin/kitty");
    assert_eq!(
        wrapped.arguments,
        Some(vec![String::from("-e"), String::from("vim"), String::from("-R")])
    );
}
