use minishell::parser::{parse_command, RedirectMode};

fn stages(line: &str) -> Vec<Vec<String>> {
    parse_command(line).commands
}

fn words(ws: &[&str]) -> Vec<String> {
    ws.iter().map(|w| w.to_string()).collect()
}

#[test]
fn plain_line_splits_on_blanks() {
    assert_eq!(stages("ls  -l\t/tmp\n"), vec![words(&["ls", "-l", "/tmp"])]);
    let p = parse_command("ls -l");
    assert!(p.output_file.is_empty());
    assert!(p.error_file.is_empty());
    assert_eq!(p.output_mode, RedirectMode::Off);
    assert_eq!(p.error_mode, RedirectMode::Off);
}

#[test]
fn blank_line_has_no_stage() {
    assert!(stages("").is_empty());
    assert!(stages("   \t ").is_empty());
}

#[test]
fn single_quotes_keep_everything_literal() {
    assert_eq!(
        stages("echo 'a | b > c 2> d \\ \"e\"'"),
        vec![words(&["echo", "a | b > c 2> d \\ \"e\""])]
    );
    let p = parse_command("echo 'x > y'");
    assert!(p.output_file.is_empty());
    assert_eq!(p.output_mode, RedirectMode::Off);
}

#[test]
fn double_quotes_escape_only_four_characters() {
    assert_eq!(stages(r#"echo "a\"b""#), vec![words(&["echo", "a\"b"])]);
    assert_eq!(stages(r#"echo "a\\b\$c\`d""#), vec![words(&["echo", "a\\b$c`d"])]);
    assert_eq!(stages(r#"echo "a\nb""#), vec![words(&["echo", "a\\nb"])]);
    assert_eq!(stages(r#"echo "it's | fine""#), vec![words(&["echo", "it's | fine"])]);
}

#[test]
fn adjacent_quoted_parts_join() {
    assert_eq!(stages("echo 'a'\"b\"c"), vec![words(&["echo", "abc"])]);
}

#[test]
fn unquoted_backslash_escapes_next_character() {
    assert_eq!(stages("echo a\\ b"), vec![words(&["echo", "a b"])]);
    assert_eq!(stages("echo a\\\\nb"), vec![words(&["echo", "a\\nb"])]);
    assert_eq!(stages("echo x\\"), vec![words(&["echo", "x"])]);
}

#[test]
fn unterminated_quote_runs_to_end() {
    assert_eq!(stages("echo 'a b"), vec![words(&["echo", "a b"])]);
}

#[test]
fn pipes_split_stages() {
    assert_eq!(
        stages("ls -l | grep x|wc"),
        vec![words(&["ls", "-l"]), words(&["grep", "x"]), words(&["wc"])]
    );
    assert_eq!(stages("| ls ||"), vec![words(&["ls"])]);
}

#[test]
fn output_redirection_truncate_and_append() {
    let p = parse_command("pwd > out.txt");
    assert_eq!(p.commands, vec![words(&["pwd"])]);
    assert_eq!(p.output_file, words(&["out.txt"]));
    assert_eq!(p.output_mode, RedirectMode::Truncate);
    let p = parse_command("pwd >> out.txt");
    assert_eq!(p.output_file, words(&["out.txt"]));
    assert_eq!(p.output_mode, RedirectMode::Append);
    let p = parse_command("pwd 1>>out.txt");
    assert_eq!(p.commands, vec![words(&["pwd"])]);
    assert_eq!(p.output_file, words(&["out.txt"]));
    assert_eq!(p.output_mode, RedirectMode::Append);
    let p = parse_command("echo hi>f");
    assert_eq!(p.commands, vec![words(&["echo", "hi"])]);
    assert_eq!(p.output_file, words(&["f"]));
}

#[test]
fn error_redirection() {
    let p = parse_command("ls nope 2> err.txt > out.txt");
    assert_eq!(p.commands, vec![words(&["ls", "nope"])]);
    assert_eq!(p.error_file, words(&["err.txt"]));
    assert_eq!(p.error_mode, RedirectMode::Truncate);
    assert_eq!(p.output_file, words(&["out.txt"]));
    assert_eq!(p.output_mode, RedirectMode::Truncate);
    let p = parse_command("ls 2>>e");
    assert_eq!(p.error_file, words(&["e"]));
    assert_eq!(p.error_mode, RedirectMode::Append);
}

#[test]
fn redirection_collects_several_targets() {
    let p = parse_command("echo hi > a b");
    assert_eq!(p.commands, vec![words(&["echo", "hi"])]);
    assert_eq!(p.output_file, words(&["a", "b"]));
    let p = parse_command("echo hi > a > b");
    assert_eq!(p.output_file, words(&["a", "b"]));
    let p = parse_command("echo hi > a>b");
    assert_eq!(p.output_file, words(&["a>b"]));
}

#[test]
fn trailing_redirection_has_no_target() {
    let p = parse_command("echo hi >");
    assert_eq!(p.commands, vec![words(&["echo", "hi"])]);
    assert!(p.output_file.is_empty());
    assert_eq!(p.output_mode, RedirectMode::Truncate);
}

#[test]
fn digits_not_before_redirection_are_literal() {
    assert_eq!(stages("echo 1 2 12"), vec![words(&["echo", "1", "2", "12"])]);
    assert_eq!(stages("echo \"2>x\""), vec![words(&["echo", "2>x"])]);
}

#[test]
fn empty_quoted_word_adds_nothing() {
    assert_eq!(stages("echo '' x \"\""), vec![words(&["echo", "x"])]);
}

#[test]
fn every_stage_and_word_is_nonempty() {
    for line in ["| |", "a || b", " > ", "x 2>", "'' | \"\"", "a >b | c 2>>d e"] {
        let p = parse_command(line);
        for stage in &p.commands {
            assert!(!stage.is_empty());
            assert!(stage.iter().all(|w| !w.is_empty()));
        }
        assert!(p.output_file.iter().all(|w| !w.is_empty()));
        assert!(p.output_file.is_empty() || p.output_mode != RedirectMode::Off);
        assert!(p.error_file.is_empty() || p.error_mode != RedirectMode::Off);
    }
    let p = parse_command("a >b | c 2>>d e");
    assert_eq!(p.commands, vec![words(&["a"]), words(&["c"])]);
    assert_eq!(p.output_file, words(&["b"]));
    assert_eq!(p.error_file, words(&["d", "e"]));
}
