//! The builtin commands and the text they produce. Each is a function of its
//! arguments and of plain values describing the shell's surroundings.

use vstd::prelude::*;

use crate::text::{chars_of, push_all, same_text};

verus! {

/// The commands that run inside the shell itself.
#[derive(Clone, Copy, Debug, PartialEq, Eq, Structural)]
pub enum Builtin {
    Exit,
    Echo,
    Type,
    Pwd,
    Cd,
    History,
}

/// The builtin called `name`, if there is one.
pub open spec fn builtin_named(name: Seq<char>) -> Option<Builtin> {
    if name == "exit"@ {
        Some(Builtin::Exit)
    } else if name == "echo"@ {
        Some(Builtin::Echo)
    } else if name == "type"@ {
        Some(Builtin::Type)
    } else if name == "pwd"@ {
        Some(Builtin::Pwd)
    } else if name == "cd"@ {
        Some(Builtin::Cd)
    } else if name == "history"@ {
        Some(Builtin::History)
    } else {
        None
    }
}

/// Looks a command name up in the table of builtins.
pub fn lookup_builtin(name: &str) -> (r: Option<Builtin>)
    ensures
        r == builtin_named(name@),
{
    if same_text(name, "exit") {
        Some(Builtin::Exit)
    } else if same_text(name, "echo") {
        Some(Builtin::Echo)
    } else if same_text(name, "type") {
        Some(Builtin::Type)
    } else if same_text(name, "pwd") {
        Some(Builtin::Pwd)
    } else if same_text(name, "cd") {
        Some(Builtin::Cd)
    } else if same_text(name, "history") {
        Some(Builtin::History)
    } else {
        None
    }
}

/// What `echo` makes of one argument: `\n`, `\t` and `\\` become a newline,
/// a tab and a backslash; a backslash before any other character stays, and
/// so does a final one.
pub open spec fn unescape(w: Seq<char>) -> Seq<char>
    decreases w.len(),
{
    if w.len() == 0 {
        seq![]
    } else if w[0] == '\\' && w.len() >= 2 {
        let e = w[1];
        let out = if e == 'n' {
            seq!['\n']
        } else if e == 't' {
            seq!['\t']
        } else if e == '\\' {
            seq!['\\']
        } else {
            seq!['\\', e]
        };
        out + unescape(w.subrange(2, w.len() as int))
    } else {
        seq![w[0]] + unescape(w.subrange(1, w.len() as int))
    }
}

/// The words of `ws` joined by single spaces.
pub open spec fn spaced(ws: Seq<Seq<char>>) -> Seq<char>
    decreases ws.len(),
{
    if ws.len() == 0 {
        seq![]
    } else if ws.len() == 1 {
        ws[0]
    } else {
        spaced(ws.drop_last()) + seq![' '] + ws.last()
    }
}

/// What `echo` prints for its arguments (the command name excluded).
pub open spec fn echo_text(args: Seq<Seq<char>>) -> Seq<char> {
    spaced(args.map_values(|w: Seq<char>| unescape(w))) + seq!['\n']
}

/// Appends what `echo` makes of the word `w`.
fn push_unescaped(out: &mut String, w: &str)
    ensures
        final(out)@ == old(out)@ + unescape(w@),
{
    let s = chars_of(w);
    let n = s.len();
    let mut i: usize = 0;
    assert(s@.subrange(0, n as int) =~= w@);
    while i < n
        invariant
            n == s@.len(),
            s@ == w@,
            i <= n,
            out@ + unescape(s@.subrange(i as int, n as int)) == old(out)@ + unescape(w@),
        decreases n - i,
    {
        let ghost rest = s@.subrange(i as int, n as int);
        let ghost before = out@;
        if s[i] == '\\' && i + 1 < n {
            let e = s[i + 1];
            if e == 'n' {
                out.push('\n');
            } else if e == 't' {
                out.push('\t');
            } else if e == '\\' {
                out.push('\\');
            } else {
                out.push('\\');
                out.push(e);
            }
            assert(rest.subrange(2, rest.len() as int) =~= s@.subrange(i + 2, n as int));
            i = i + 2;
        } else {
            out.push(s[i]);
            assert(rest.subrange(1, rest.len() as int) =~= s@.subrange(i + 1, n as int));
            i = i + 1;
        }
        assert(out@ + unescape(s@.subrange(i as int, n as int)) =~= before + unescape(rest));
    }
    assert(s@.subrange(n as int, n as int) =~= Seq::<char>::empty());
    assert(out@ + unescape(Seq::<char>::empty()) =~= out@);
}

/// What `echo` prints when called as `command` (its first word is the name).
pub fn echo_output(command: &Vec<String>) -> (r: String)
    requires
        command@.len() >= 1,
    ensures
        r@ == echo_text(crate::parser::texts(command@).drop_first()),
{
    let ghost args = crate::parser::texts(command@).drop_first();
    let ghost un = args.map_values(|w: Seq<char>| unescape(w));
    let mut out = String::new();
    let mut k: usize = 1;
    while k < command.len()
        invariant
            1 <= k <= command@.len(),
            args == crate::parser::texts(command@).drop_first(),
            un == args.map_values(|w: Seq<char>| unescape(w)),
            out@ == spaced(un.subrange(0, k - 1)),
        decreases command@.len() - k,
    {
        let ghost prev = un.subrange(0, k - 1);
        if k > 1 {
            out.push(' ');
        }
        push_unescaped(&mut out, command[k].as_str());
        proof {
            let next = un.subrange(0, k as int);
            assert(next.drop_last() =~= prev);
            assert(next.last() == unescape(command@[k as int]@));
            assert(out@ =~= spaced(next));
        }
        k = k + 1;
    }
    assert(un.subrange(0, k - 1) =~= un);
    out.push('\n');
    out
}

/// The character of the decimal digit `d`.
pub open spec fn digit(d: nat) -> char {
    if d == 0 {
        '0'
    } else if d == 1 {
        '1'
    } else if d == 2 {
        '2'
    } else if d == 3 {
        '3'
    } else if d == 4 {
        '4'
    } else if d == 5 {
        '5'
    } else if d == 6 {
        '6'
    } else if d == 7 {
        '7'
    } else if d == 8 {
        '8'
    } else {
        '9'
    }
}

/// The decimal notation of `n`, without leading zeros.
pub open spec fn decimal(n: nat) -> Seq<char>
    decreases n,
{
    if n < 10 {
        seq![digit(n)]
    } else {
        decimal(n / 10).push(digit(n % 10))
    }
}

fn digit_char(d: usize) -> (r: char)
    requires
        d < 10,
    ensures
        r == digit(d as nat),
{
    if d == 0 {
        '0'
    } else if d == 1 {
        '1'
    } else if d == 2 {
        '2'
    } else if d == 3 {
        '3'
    } else if d == 4 {
        '4'
    } else if d == 5 {
        '5'
    } else if d == 6 {
        '6'
    } else if d == 7 {
        '7'
    } else if d == 8 {
        '8'
    } else {
        '9'
    }
}

/// Appends the decimal notation of `n`.
pub fn push_decimal(out: &mut String, n: usize)
    ensures
        final(out)@ == old(out)@ + decimal(n as nat),
    decreases n,
{
    if n >= 10 {
        push_decimal(out, n / 10);
    }
    out.push(digit_char(n % 10));
    assert(final(out)@ =~= old(out)@ + decimal(n as nat));
}

/// One line of the history listing: the 1-based position, a space, the entry.
pub open spec fn history_line(pos: nat, entry: Seq<char>) -> Seq<char> {
    decimal(pos) + seq![' '] + entry + seq!['\n']
}

/// What `history` prints: every entry in order, numbered from 1.
pub open spec fn history_text(h: Seq<Seq<char>>) -> Seq<char>
    decreases h.len(),
{
    if h.len() == 0 {
        seq![]
    } else {
        history_text(h.drop_last()) + history_line(h.len(), h.last())
    }
}

/// The listing that `history` prints.
pub fn history_output(history: &Vec<String>) -> (r: String)
    ensures
        r@ == history_text(crate::parser::texts(history@)),
{
    let ghost h = crate::parser::texts(history@);
    let mut out = String::new();
    let mut k: usize = 0;
    while k < history.len()
        invariant
            k <= history@.len(),
            h == crate::parser::texts(history@),
            out@ == history_text(h.subrange(0, k as int)),
        decreases history@.len() - k,
    {
        let ghost prev = out@;
        push_decimal(&mut out, k + 1);
        out.push(' ');
        push_all(&mut out, history[k].as_str());
        out.push('\n');
        proof {
            let next = h.subrange(0, k + 1);
            assert(next.drop_last() =~= h.subrange(0, k as int));
            assert(next.last() == history@[k as int]@);
            assert(out@ =~= prev + history_line((k + 1) as nat, history@[k as int]@));
        }
        k = k + 1;
    }
    assert(h.subrange(0, k as int) =~= h);
    out
}

/// What `type` reports for `name`, given where the search path resolves it.
pub open spec fn type_text(name: Seq<char>, resolved: Option<Seq<char>>) -> Seq<char> {
    if builtin_named(name) is Some {
        name + " is a shell builtin\n"@
    } else if resolved is Some {
        name + " is "@ + resolved->0 + "\n"@
    } else {
        name + ": not found\n"@
    }
}

/// The report of `type name`, where `resolved` is what looking `name` up on
/// the search path gave.
pub fn type_report(name: &str, resolved: Option<String>) -> (r: String)
    ensures
        r@ == type_text(name@, match resolved {
            Some(p) => Some(p@),
            None => None,
        }),
{
    let mut out = String::from_str(name);
    if lookup_builtin(name).is_some() {
        push_all(&mut out, " is a shell builtin\n");
    } else {
        match resolved {
            Some(p) => {
                push_all(&mut out, " is ");
                push_all(&mut out, p.as_str());
                push_all(&mut out, "\n");
            },
            None => {
                push_all(&mut out, ": not found\n");
            },
        }
    }
    out
}

/// What `pwd` prints for the working directory `dir`.
pub open spec fn pwd_text(dir: Seq<char>) -> Seq<char> {
    dir + "\n"@
}

/// What `pwd` reports on the error stream when the directory is unknown.
pub open spec fn pwd_error_text(reason: Seq<char>) -> Seq<char> {
    "Error while displaying the path: "@ + reason + "\n"@
}

/// The message for a `cd` whose directory could not be entered.
pub open spec fn cd_failure_text(arg: Seq<char>) -> Seq<char> {
    "cd: "@ + arg + ": No such file or directory\n"@
}

/// Reports that `cd` could not enter the directory named by `arg`.
pub fn cd_failure(arg: &str) -> (r: String)
    ensures
        r@ == cd_failure_text(arg@),
{
    let mut out = String::from_str("cd: ");
    push_all(&mut out, arg);
    push_all(&mut out, ": No such file or directory\n");
    out
}

} // verus!
