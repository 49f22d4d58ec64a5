use minishell::builtins::{cd_failure, echo_output, history_output, lookup_builtin, push_decimal, type_report, Builtin};

fn words(ws: &[&str]) -> Vec<String> {
    ws.iter().map(|w| w.to_string()).collect()
}

#[test]
fn builtin_table() {
    assert_eq!(lookup_builtin("exit"), Some(Builtin::Exit));
    assert_eq!(lookup_builtin("echo"), Some(Builtin::Echo));
    assert_eq!(lookup_builtin("type"), Some(Builtin::Type));
    assert_eq!(lookup_builtin("pwd"), Some(Builtin::Pwd));
    assert_eq!(lookup_builtin("cd"), Some(Builtin::Cd));
    assert_eq!(lookup_builtin("history"), Some(Builtin::History));
    assert_eq!(lookup_builtin("ls"), None);
    assert_eq!(lookup_builtin("ech"), None);
    assert_eq!(lookup_builtin(""), None);
}

#[test]
fn echo_joins_with_spaces_and_ends_line() {
    assert_eq!(echo_output(&words(&["echo", "a", "b  c", "d"])), "a b  c d\n");
    assert_eq!(echo_output(&words(&["echo"])), "\n");
}

#[test]
fn echo_interprets_escapes() {
    assert_eq!(echo_output(&words(&["echo", "a\\nb"])), "a\nb\n");
    assert_eq!(echo_output(&words(&["echo", "a\\tb"])), "a\tb\n");
    assert_eq!(echo_output(&words(&["echo", "a\\\\b"])), "a\\b\n");
    assert_eq!(echo_output(&words(&["echo", "a\\qb"])), "a\\qb\n");
    assert_eq!(echo_output(&words(&["echo", "end\\"])), "end\\\n");
}

#[test]
fn type_reports_builtin_path_or_not_found() {
    assert_eq!(type_report("cd", None), "cd is a shell builtin\n");
    assert_eq!(type_report("echo", Some("/bin/echo".to_string())), "echo is a shell builtin\n");
    assert_eq!(type_report("ls", Some("/bin/ls".to_string())), "ls is /bin/ls\n");
    assert_eq!(type_report("nonexistent_cmd_xyz", None), "nonexistent_cmd_xyz: not found\n");
}

#[test]
fn history_lists_entries_numbered() {
    let h = words(&["echo a", "pwd", "history"]);
    assert_eq!(history_output(&h), "1 echo a\n2 pwd\n3 history\n");
    assert_eq!(history_output(&Vec::new()), "");
}

#[test]
fn history_numbers_past_nine() {
    let h: Vec<String> = (0..12).map(|i| format!("c{}", i)).collect();
    let out = history_output(&h);
    assert!(out.ends_with("10 c9\n11 c10\n12 c11\n"));
}

#[test]
fn decimal_notation() {
    let mut s = String::from("n=");
    push_decimal(&mut s, 0);
    assert_eq!(s, "n=0");
    let mut s = String::new();
    push_decimal(&mut s, 4071);
    assert_eq!(s, "4071");
    let mut s = String::new();
    push_decimal(&mut s, usize::MAX);
    assert_eq!(s, usize::MAX.to_string());
}

#[test]
fn cd_failure_message() {
    assert_eq!(cd_failure("/no/such/dir"), "cd: /no/such/dir: No such file or directory\n");
}
