use minishell::executor::{
    decide_command, feed_after, output_route, plan_pipeline, run_command, CommandResult, Feed,
    ShellEnv,
};
use minishell::parser::parse_command;

fn words(ws: &[&str]) -> Vec<String> {
    ws.iter().map(|w| w.to_string()).collect()
}

fn env_at(dir: &str) -> ShellEnv {
    ShellEnv { cwd: Ok(dir.to_string()), home: Some("/home/me".to_string()) }
}

fn out(text: &str) -> CommandResult {
    CommandResult::Output(text.to_string(), String::new())
}

fn err(text: &str) -> CommandResult {
    CommandResult::Output(String::new(), text.to_string())
}

#[test]
fn empty_command_does_nothing() {
    assert_eq!(decide_command(&Vec::new(), &env_at("/"), &Vec::new(), None), CommandResult::NoOp);
}

#[test]
fn exit_ends_the_shell() {
    assert_eq!(run_command(&words(&["exit", "3"]), &env_at("/"), &Vec::new()), CommandResult::Exit);
}

#[test]
fn echo_escape_round_trip() {
    let line = parse_command("echo a\\\\nb");
    let r = run_command(&line.commands[0], &env_at("/"), &Vec::new());
    assert_eq!(r, out("a\nb\n"));
    let line = parse_command("echo \"a\\\"b\"");
    let r = run_command(&line.commands[0], &env_at("/"), &Vec::new());
    assert_eq!(r, out("a\"b\n"));
}

#[test]
fn type_of_builtin_and_unknown() {
    let e = env_at("/");
    assert_eq!(run_command(&words(&["type", "cd"]), &e, &Vec::new()), out("cd is a shell builtin\n"));
    assert_eq!(
        run_command(&words(&["type", "nonexistent_cmd_xyz"]), &e, &Vec::new()),
        out("nonexistent_cmd_xyz: not found\n")
    );
    assert_eq!(
        decide_command(&words(&["type", "ls"]), &e, &Vec::new(), Some("/usr/bin/ls".to_string())),
        out("ls is /usr/bin/ls\n")
    );
    assert_eq!(run_command(&words(&["type"]), &e, &Vec::new()), err("Usage: type <command>\n"));
}

#[test]
fn pwd_reports_directory_or_error() {
    assert_eq!(run_command(&words(&["pwd"]), &env_at("/srv/x"), &Vec::new()), out("/srv/x\n"));
    let broken = ShellEnv { cwd: Err("gone".to_string()), home: None };
    assert_eq!(
        run_command(&words(&["pwd"]), &broken, &Vec::new()),
        err("Error while displaying the path: gone\n")
    );
}

#[test]
fn cd_decisions() {
    let e = env_at("/start");
    assert_eq!(
        run_command(&words(&["cd", "/no/such/dir"]), &e, &Vec::new()),
        CommandResult::ChangeDir("/no/such/dir".to_string())
    );
    assert_eq!(
        run_command(&words(&["cd", "~"]), &e, &Vec::new()),
        CommandResult::ChangeDir("/home/me".to_string())
    );
    let homeless = ShellEnv { cwd: Ok("/start".to_string()), home: None };
    assert_eq!(run_command(&words(&["cd", "~"]), &homeless, &Vec::new()), err("cd: HOME not set\n"));
    assert_eq!(run_command(&words(&["cd"]), &e, &Vec::new()), err("Usage: cd <directory>\n"));
    assert_eq!(run_command(&words(&["cd", "a", "b"]), &e, &Vec::new()), err("Usage: cd <directory>\n"));
}

#[test]
fn failed_cd_leaves_pwd_unchanged() {
    let e = env_at("/start");
    let r = run_command(&words(&["cd", "/no/such/dir"]), &e, &Vec::new());
    assert!(matches!(r, CommandResult::ChangeDir(_)));
    assert_eq!(run_command(&words(&["pwd"]), &e, &Vec::new()), out("/start\n"));
}

#[test]
fn history_after_three_lines() {
    let h = words(&["echo one", "pwd", "history"]);
    assert_eq!(
        run_command(&words(&["history"]), &env_at("/"), &h),
        out("1 echo one\n2 pwd\n3 history\n")
    );
}

#[test]
fn unknown_program_is_not_found() {
    assert_eq!(
        run_command(&words(&["nonexistent_cmd_xyz", "-v"]), &env_at("/"), &Vec::new()),
        out("nonexistent_cmd_xyz: not found\n")
    );
}

#[test]
fn resolved_program_runs_externally() {
    assert_eq!(
        decide_command(&words(&["ls", "-l"]), &env_at("/"), &Vec::new(), Some("/bin/ls".to_string())),
        CommandResult::External(words(&["ls", "-l"]))
    );
}

#[test]
fn pipe_composition_feeds_echo_text() {
    let line = parse_command("echo hello | cat");
    let (results, terminate) = plan_pipeline(&line.commands, &env_at("/"), &Vec::new());
    assert!(!terminate);
    assert_eq!(results.len(), 2);
    assert_eq!(results[0], out("hello\n"));
    assert_eq!(feed_after(&results[0], false), Feed::Text("hello\n".to_string()));
    assert_eq!(results[1], CommandResult::External(words(&["cat"])));
    assert_eq!(feed_after(&results[1], true), Feed::Stream);
    assert_eq!(feed_after(&results[1], false), Feed::Nothing);
}

#[test]
fn exit_mid_pipeline_stops_the_chain() {
    let line = parse_command("echo hi | exit | echo later");
    let (results, terminate) = plan_pipeline(&line.commands, &env_at("/"), &Vec::new());
    assert!(terminate);
    assert_eq!(results, vec![out("hi\n")]);
    let line = parse_command("exit | echo later");
    let (results, terminate) = plan_pipeline(&line.commands, &env_at("/"), &Vec::new());
    assert!(terminate);
    assert!(results.is_empty());
}

#[test]
fn builtins_in_a_chain_feed_nothing_when_silent() {
    assert_eq!(feed_after(&CommandResult::ChangeDir("/".to_string()), true), Feed::Nothing);
    assert_eq!(feed_after(&CommandResult::NoOp, true), Feed::Nothing);
}

#[test]
fn redirection_routes() {
    let p = parse_command("pwd > out.txt");
    assert_eq!(output_route(&p, false), Some(false));
    assert_eq!(output_route(&p, true), None);
    let p = parse_command("pwd >> out.txt 2>> err.txt");
    assert_eq!(output_route(&p, false), Some(true));
    assert_eq!(output_route(&p, true), Some(true));
    let p = parse_command("pwd >");
    assert_eq!(output_route(&p, false), None);
    let p = parse_command("echo a > f | cat");
    assert_eq!(output_route(&p, false), None);
}
