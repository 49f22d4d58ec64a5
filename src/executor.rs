//! Dispatch of one command to a builtin or to an external program, and the
//! decisions that drive a pipe chain. The work that only the operating
//! system can do (entering a directory, spawning a program, writing a file)
//! is left to the caller, which receives it as a value to act on.

use vstd::prelude::*;

use crate::builtins::{
    Builtin,
    builtin_named,
    echo_output,
    echo_text,
    history_output,
    history_text,
    lookup_builtin,
    pwd_error_text,
    pwd_text,
    type_report,
    type_text,
};
use crate::parser::{ParsedResult, RedirectMode, texts};
use crate::text::{push_all, same_text};

verus! {

/// What the shell knows of its surroundings when a command runs: the
/// working directory (or why it could not be read) and the home directory.
pub struct ShellEnv {
    pub cwd: Result<String, String>,
    pub home: Option<String>,
}

/// What running one command asks of the shell.
#[derive(Debug, PartialEq, Eq)]
pub enum CommandResult {
    /// Text for the output and error streams.
    Output(String, String),
    /// Leave the shell.
    Exit,
    /// Nothing to do.
    NoOp,
    /// Enter this directory.
    ChangeDir(String),
    /// Run this argument vector as a program found on the search path.
    External(Vec<String>),
}

/// The mathematical content of a `CommandResult`.
pub enum Outcome {
    Output(Seq<char>, Seq<char>),
    Exit,
    NoOp,
    ChangeDir(Seq<char>),
    External(Seq<Seq<char>>),
}

impl View for CommandResult {
    type V = Outcome;

    open spec fn view(&self) -> Outcome {
        match self {
            CommandResult::Output(o, e) => Outcome::Output(o@, e@),
            CommandResult::Exit => Outcome::Exit,
            CommandResult::NoOp => Outcome::NoOp,
            CommandResult::ChangeDir(d) => Outcome::ChangeDir(d@),
            CommandResult::External(v) => Outcome::External(texts(v@)),
        }
    }
}

/// The characters of an optional string.
pub open spec fn opt_text(o: Option<String>) -> Option<Seq<char>> {
    match o {
        Some(s) => Some(s@),
        None => None,
    }
}

/// The characters of a directory, or of the reason it is unknown.
pub open spec fn cwd_text(r: Result<String, String>) -> Result<Seq<char>, Seq<char>> {
    match r {
        Ok(d) => Ok(d@),
        Err(e) => Err(e@),
    }
}

/// The name that running `cmd` looks up on the search path, if any: the
/// argument of `type` when it is no builtin, or the name of a command that
/// is no builtin.
pub open spec fn lookup_target(cmd: Seq<Seq<char>>) -> Option<Seq<char>> {
    if cmd.len() == 0 {
        None
    } else {
        match builtin_named(cmd[0]) {
            Some(Builtin::Type) => if cmd.len() >= 2 && builtin_named(cmd[1]) is None {
                Some(cmd[1])
            } else {
                None
            },
            Some(_) => None,
            None => Some(cmd[0]),
        }
    }
}

/// What running `cmd` asks of the shell, where `resolved` is what the search
/// path gave for `lookup_target(cmd)`.
pub open spec fn outcome(
    cmd: Seq<Seq<char>>,
    cwd: Result<Seq<char>, Seq<char>>,
    home: Option<Seq<char>>,
    hist: Seq<Seq<char>>,
    resolved: Option<Seq<char>>,
) -> Outcome {
    if cmd.len() == 0 {
        Outcome::NoOp
    } else {
        match builtin_named(cmd[0]) {
            Some(Builtin::Exit) => Outcome::Exit,
            Some(Builtin::Echo) => Outcome::Output(echo_text(cmd.drop_first()), seq![]),
            Some(Builtin::Type) => if cmd.len() < 2 {
                Outcome::Output(seq![], "Usage: type <command>\n"@)
            } else {
                Outcome::Output(type_text(cmd[1], resolved), seq![])
            },
            Some(Builtin::Pwd) => match cwd {
                Ok(d) => Outcome::Output(pwd_text(d), seq![]),
                Err(e) => Outcome::Output(seq![], pwd_error_text(e)),
            },
            Some(Builtin::Cd) => if cmd.len() != 2 {
                Outcome::Output(seq![], "Usage: cd <directory>\n"@)
            } else if cmd[1] == "~"@ {
                match home {
                    Some(h) => Outcome::ChangeDir(h),
                    None => Outcome::Output(seq![], "cd: HOME not set\n"@),
                }
            } else {
                Outcome::ChangeDir(cmd[1])
            },
            Some(Builtin::History) => Outcome::Output(history_text(hist), seq![]),
            None => match resolved {
                Some(_) => Outcome::External(cmd),
                None => Outcome::Output(cmd[0] + ": not found\n"@, seq![]),
            },
        }
    }
}

/// Whether `cmd` is a call of `exit`.
pub open spec fn is_exit(cmd: Seq<Seq<char>>) -> bool {
    cmd.len() > 0 && builtin_named(cmd[0]) == Some(Builtin::Exit)
}

/// Relies on `which::which`: the executable that a command name resolves to
/// on the search path, shown as text. The answer depends on the environment
/// and on the file system, so nothing is promised of it.
#[verifier::external_body]
fn resolve_on_path(name: &str) -> (r: Option<String>) {
    which::which(name).ok().map(|p| p.display().to_string())
}

/// A copy of an argument vector.
fn copy_words(v: &Vec<String>) -> (r: Vec<String>)
    ensures
        texts(r@) == texts(v@),
{
    let mut r: Vec<String> = Vec::new();
    let mut i: usize = 0;
    while i < v.len()
        invariant
            i <= v@.len(),
            texts(r@) == texts(v@.subrange(0, i as int)),
        decreases v@.len() - i,
    {
        let w = v[i].clone();
        proof {
            crate::parser::lemma_texts_push(r@, w);
            assert(v@.subrange(0, i + 1) =~= v@.subrange(0, i as int).push(v@[i as int]));
            crate::parser::lemma_texts_push(v@.subrange(0, i as int), v@[i as int]);
        }
        r.push(w);
        i = i + 1;
    }
    assert(v@.subrange(0, i as int) =~= v@);
    r
}

/// An owned copy of `s`.
fn text_of(s: &str) -> (r: String)
    ensures
        r@ == s@,
{
    String::from_str(s)
}

/// The name that running `command` looks up on the search path, if any.
pub fn lookup_name(command: &Vec<String>) -> (r: Option<&String>)
    ensures
        opt_text(match r {
            Some(s) => Some(*s),
            None => None,
        }) == lookup_target(texts(command@)),
{
    if command.len() == 0 {
        return None;
    }
    match lookup_builtin(command[0].as_str()) {
        Some(Builtin::Type) => {
            if command.len() >= 2 && lookup_builtin(command[1].as_str()).is_none() {
                Some(&command[1])
            } else {
                None
            }
        },
        Some(_) => None,
        None => Some(&command[0]),
    }
}

/// Decides what running `command` asks of the shell, given the surroundings,
/// the history, and what the search path gave for `lookup_target`.
pub fn decide_command(
    command: &Vec<String>,
    env: &ShellEnv,
    history: &Vec<String>,
    resolved: Option<String>,
) -> (r: CommandResult)
    ensures
        r@ == outcome(
            texts(command@),
            cwd_text(env.cwd),
            opt_text(env.home),
            texts(history@),
            opt_text(resolved),
        ),
{
    if command.len() == 0 {
        return CommandResult::NoOp;
    }
    match lookup_builtin(command[0].as_str()) {
        Some(Builtin::Exit) => CommandResult::Exit,
        Some(Builtin::Echo) => CommandResult::Output(echo_output(command), String::new()),
        Some(Builtin::Type) => {
            if command.len() < 2 {
                CommandResult::Output(String::new(), text_of("Usage: type <command>\n"))
            } else {
                CommandResult::Output(type_report(command[1].as_str(), resolved), String::new())
            }
        },
        Some(Builtin::Pwd) => match &env.cwd {
            Ok(d) => {
                let mut out = d.clone();
                push_all(&mut out, "\n");
                CommandResult::Output(out, String::new())
            },
            Err(e) => {
                let mut msg = text_of("Error while displaying the path: ");
                push_all(&mut msg, e.as_str());
                push_all(&mut msg, "\n");
                CommandResult::Output(String::new(), msg)
            },
        },
        Some(Builtin::Cd) => {
            if command.len() != 2 {
                CommandResult::Output(String::new(), text_of("Usage: cd <directory>\n"))
            } else if same_text(command[1].as_str(), "~") {
                match &env.home {
                    Some(h) => CommandResult::ChangeDir(h.clone()),
                    None => CommandResult::Output(String::new(), text_of("cd: HOME not set\n")),
                }
            } else {
                CommandResult::ChangeDir(command[1].clone())
            }
        },
        Some(Builtin::History) => CommandResult::Output(history_output(history), String::new()),
        None => match resolved {
            Some(_) => CommandResult::External(copy_words(command)),
            None => {
                let mut out = command[0].clone();
                push_all(&mut out, ": not found\n");
                CommandResult::Output(out, String::new())
            },
        },
    }
}

/// Runs one command: looks its name up on the search path where needed and
/// decides what it asks of the shell. Where nothing is looked up the result
/// is exact; otherwise it is what `decide_command` gives for one answer of
/// the search path.
pub fn run_command(command: &Vec<String>, env: &ShellEnv, history: &Vec<String>) -> (r:
    CommandResult)
    ensures
        exists|res: Option<Seq<char>>|
            r@ == outcome(
                texts(command@),
                cwd_text(env.cwd),
                opt_text(env.home),
                texts(history@),
                res,
            ),
        lookup_target(texts(command@)) is None ==> r@ == outcome(
            texts(command@),
            cwd_text(env.cwd),
            opt_text(env.home),
            texts(history@),
            None,
        ),
{
    let resolved = match lookup_name(command) {
        Some(name) => resolve_on_path(name.as_str()),
        None => None,
    };
    decide_command(command, env, history, resolved)
}


/// Whether `o` is what running `cmd` may ask of the shell: exactly the
/// outcome when nothing is looked up, else the outcome for some answer of
/// the search path.
pub open spec fn outcome_of(
    o: Outcome,
    cmd: Seq<Seq<char>>,
    env: ShellEnv,
    hist: Seq<Seq<char>>,
) -> bool {
    &&& exists|res: Option<Seq<char>>|
        o == outcome(cmd, cwd_text(env.cwd), opt_text(env.home), hist, res)
    &&& lookup_target(cmd) is None ==> o == outcome(
        cmd,
        cwd_text(env.cwd),
        opt_text(env.home),
        hist,
        None,
    )
}

/// Decides every stage of a pipe chain, left to right, up to the first call
/// of `exit`. Returns what each stage before it asks of the shell, and
/// whether the chain meets an `exit`, which ends the shell at once: no stage
/// from that one on is run.
pub fn plan_pipeline(stages: &Vec<Vec<String>>, env: &ShellEnv, history: &Vec<String>) -> (r: (
    Vec<CommandResult>,
    bool,
))
    ensures
        r.0@.len() <= stages@.len(),
        r.1 <==> r.0@.len() < stages@.len(),
        r.1 ==> is_exit(texts(stages@[r.0@.len() as int]@)),
        forall|k: int|
            0 <= k < r.0@.len() ==> !is_exit(texts(#[trigger] stages@[k]@)) && outcome_of(
                r.0@[k]@,
                texts(stages@[k]@),
                *env,
                texts(history@),
            ),
{
    let mut results: Vec<CommandResult> = Vec::new();
    let mut k: usize = 0;
    while k < stages.len()
        invariant
            k <= stages@.len(),
            results@.len() == k,
            forall|j: int|
                0 <= j < k ==> !is_exit(texts(#[trigger] stages@[j]@)) && outcome_of(
                    results@[j]@,
                    texts(stages@[j]@),
                    *env,
                    texts(history@),
                ),
        decreases stages@.len() - k,
    {
        let r = run_command(&stages[k], env, history);
        if let CommandResult::Exit = r {
            assert(is_exit(texts(stages@[k as int]@)));
            return (results, true);
        }
        assert(!is_exit(texts(stages@[k as int]@)));
        results.push(r);
        k = k + 1;
    }
    (results, false)
}

/// What the next stage of a pipe chain reads: nothing, the output stream of
/// the program just spawned, or text a builtin produced.
#[derive(Debug, PartialEq, Eq)]
pub enum Feed {
    Nothing,
    Stream,
    Text(String),
}

/// What the stage after one whose result was `result` reads; `spawned`
/// says whether the program of an external stage could be started.
pub fn feed_after(result: &CommandResult, spawned: bool) -> (f: Feed)
    ensures
        match result@ {
            Outcome::Output(o, _) => f matches Feed::Text(t) && t@ == o,
            Outcome::External(_) => if spawned {
                f is Stream
            } else {
                f is Nothing
            },
            _ => f is Nothing,
        },
{
    match result {
        CommandResult::Output(o, _) => Feed::Text(o.clone()),
        CommandResult::External(_) => if spawned {
            Feed::Stream
        } else {
            Feed::Nothing
        },
        _ => Feed::Nothing,
    }
}

/// Where one output stream of a parsed line goes: `None` to the terminal,
/// `Some(append)` to every target file, appended to or truncated.
/// Redirection applies to a line of one stage with at least one target.
pub open spec fn route(stages: nat, mode: RedirectMode, targets: nat) -> Option<bool> {
    if stages != 1 || mode == RedirectMode::Off || targets == 0 {
        None
    } else {
        Some(mode == RedirectMode::Append)
    }
}

/// Where the error stream (`err`) or the output stream of `parsed` goes.
pub fn output_route(parsed: &ParsedResult, err: bool) -> (r: Option<bool>)
    ensures
        r == (if err {
            route(parsed.commands@.len(), parsed.error_mode, parsed.error_file@.len())
        } else {
            route(parsed.commands@.len(), parsed.output_mode, parsed.output_file@.len())
        }),
{
    let (mode, n) = if err {
        (parsed.error_mode, parsed.error_file.len())
    } else {
        (parsed.output_mode, parsed.output_file.len())
    };
    if parsed.commands.len() != 1 || mode == RedirectMode::Off || n == 0 {
        None
    } else {
        Some(mode == RedirectMode::Append)
    }
}

/// `type` of a builtin name reports a builtin, whatever the search path says.
pub proof fn lemma_type_of_builtin(name: Seq<char>, resolved: Option<Seq<char>>)
    requires
        builtin_named(name) is Some,
    ensures
        type_text(name, resolved) == name + " is a shell builtin\n"@,
{
}

/// `type cd` reports a shell builtin, whatever the search path says.
pub proof fn lemma_type_cd(resolved: Option<Seq<char>>)
    ensures
        type_text("cd"@, resolved) == "cd is a shell builtin\n"@,
{
    reveal_strlit("cd");
    reveal_strlit("exit");
    reveal_strlit("echo");
    reveal_strlit("type");
    reveal_strlit("pwd");
    reveal_strlit("history");
    assert("cd"@.len() == 2 && "exit"@.len() == 4 && "echo"@.len() == 4);
    assert("type"@.len() == 4 && "pwd"@.len() == 3);
    assert("cd"@ != "exit"@ && "cd"@ != "echo"@ && "cd"@ != "type"@ && "cd"@ != "pwd"@);
    reveal_strlit("cd is a shell builtin\n");
    reveal_strlit(" is a shell builtin\n");
    assert(builtin_named("cd"@) == Some(Builtin::Cd));
    assert("cd"@ + " is a shell builtin\n"@ =~= "cd is a shell builtin\n"@);
}

/// `type` of a name that is no builtin and that the search path does not
/// resolve reports that it is not found.
pub proof fn lemma_type_not_found(name: Seq<char>)
    requires
        builtin_named(name) is None,
    ensures
        type_text(name, None) == name + ": not found\n"@,
{
}

/// After three lines were entered, `history` lists them numbered 1, 2, 3.
pub proof fn lemma_history_of_three(a: Seq<char>, b: Seq<char>, c: Seq<char>)
    ensures
        history_text(seq![a, b, c]) == seq!['1', ' '] + a + seq!['\n'] + seq!['2', ' '] + b
            + seq!['\n'] + seq!['3', ' '] + c + seq!['\n'],
{
    let h = seq![a, b, c];
    assert(h.drop_last() =~= seq![a, b]);
    assert(seq![a, b].drop_last() =~= seq![a]);
    assert(seq![a].drop_last() =~= Seq::<Seq<char>>::empty());
    assert(crate::builtins::decimal(1) == seq!['1']);
    assert(crate::builtins::decimal(2) == seq!['2']);
    assert(crate::builtins::decimal(3) == seq!['3']);
    let e = Seq::<Seq<char>>::empty();
    assert(history_text(e) == Seq::<char>::empty());
    assert(history_text(seq![a]) == history_text(e) + crate::builtins::history_line(1, a));
    assert(history_text(seq![a, b]) == history_text(seq![a]) + crate::builtins::history_line(2, b));
    assert(history_text(h) == history_text(seq![a, b]) + crate::builtins::history_line(3, c));
    assert(history_text(h) =~= seq!['1', ' '] + a + seq!['\n'] + seq!['2', ' '] + b + seq!['\n']
        + seq!['3', ' '] + c + seq!['\n']);
}

} // verus!
