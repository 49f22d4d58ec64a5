//! The command-line tokenizer: one left-to-right pass over a line that
//! splits it into piped stages and collects redirection targets, honouring
//! single quotes, double quotes and backslash escapes.

use vstd::prelude::*;

use crate::text::chars_of;

verus! {

/// How one output stream of a command is redirected.
#[derive(Clone, Copy, Debug, PartialEq, Eq, Structural)]
pub enum RedirectMode {
    Off,
    Truncate,
    Append,
}

/// Where the token being read goes once it is complete.
#[derive(Clone, Copy, Debug, PartialEq, Eq, Structural)]
pub enum Collecting {
    Args,
    Output,
    Error,
}

/// A tokenized line: the stages of the pipe chain, each an argument vector,
/// and the redirection targets and modes of both output streams.
pub struct ParsedResult {
    pub commands: Vec<Vec<String>>,
    pub output_file: Vec<String>,
    pub error_file: Vec<String>,
    pub output_mode: RedirectMode,
    pub error_mode: RedirectMode,
}

/// The mathematical content of a tokenized line.
pub struct Parsed {
    pub stages: Seq<Seq<Seq<char>>>,
    pub out_files: Seq<Seq<char>>,
    pub err_files: Seq<Seq<char>>,
    pub out_mode: RedirectMode,
    pub err_mode: RedirectMode,
}

/// The characters of each string in `v`.
pub open spec fn texts(v: Seq<String>) -> Seq<Seq<char>> {
    v.map_values(|s: String| s@)
}

/// The characters of each string of each argument vector in `v`.
pub open spec fn stage_texts(v: Seq<Vec<String>>) -> Seq<Seq<Seq<char>>> {
    v.map_values(|a: Vec<String>| texts(a@))
}

impl View for ParsedResult {
    type V = Parsed;

    open spec fn view(&self) -> Parsed {
        Parsed {
            stages: stage_texts(self.commands@),
            out_files: texts(self.output_file@),
            err_files: texts(self.error_file@),
            out_mode: self.output_mode,
            err_mode: self.error_mode,
        }
    }
}

/// The state of the scanner between two characters.
pub struct Scan {
    pub stages: Seq<Seq<Seq<char>>>,
    pub args: Seq<Seq<char>>,
    pub tok: Seq<char>,
    pub single: bool,
    pub double: bool,
    pub into: Collecting,
    pub out_files: Seq<Seq<char>>,
    pub err_files: Seq<Seq<char>>,
    pub out_mode: RedirectMode,
    pub err_mode: RedirectMode,
}

/// The scanner before the first character.
pub open spec fn start() -> Scan {
    Scan {
        stages: seq![],
        args: seq![],
        tok: seq![],
        single: false,
        double: false,
        into: Collecting::Args,
        out_files: seq![],
        err_files: seq![],
        out_mode: RedirectMode::Off,
        err_mode: RedirectMode::Off,
    }
}

/// The characters that separate words.
pub open spec fn is_blank(c: char) -> bool {
    c == ' ' || c == '\t' || c == '\n'
}

/// The characters that a backslash escapes inside double quotes.
pub open spec fn escapable_in_double(c: char) -> bool {
    c == '"' || c == '\\' || c == '$' || c == '`'
}

/// Adds `c` to the token being read.
pub open spec fn keep(st: Scan, c: char) -> Scan {
    Scan { tok: st.tok.push(c), ..st }
}

/// Completes the current token, if any, into the list it is collected for.
pub open spec fn close_token(st: Scan) -> Scan {
    if st.tok.len() == 0 {
        st
    } else {
        match st.into {
            Collecting::Args => Scan { args: st.args.push(st.tok), tok: seq![], ..st },
            Collecting::Output => Scan { out_files: st.out_files.push(st.tok), tok: seq![], ..st },
            Collecting::Error => Scan { err_files: st.err_files.push(st.tok), tok: seq![], ..st },
        }
    }
}

/// Completes the current stage, if it has any argument.
pub open spec fn close_stage(st: Scan) -> Scan {
    if st.args.len() == 0 {
        st
    } else {
        Scan { stages: st.stages.push(st.args), args: seq![], ..st }
    }
}

/// A redirection operator: later tokens become targets of one stream.
pub open spec fn redirect(st: Scan, err: bool, append: bool) -> Scan {
    let st = close_token(st);
    let mode = if append {
        RedirectMode::Append
    } else {
        RedirectMode::Truncate
    };
    if err {
        Scan { into: Collecting::Error, err_mode: mode, ..st }
    } else {
        Scan { into: Collecting::Output, out_mode: mode, ..st }
    }
}

/// Whether the character after position `i` is `c`.
pub open spec fn next_is(s: Seq<char>, i: int, c: char) -> bool {
    i + 1 < s.len() && s[i + 1] == c
}

/// One transition of the scanner at position `i`: the new state and the
/// position of the first character not yet read.
pub open spec fn step(s: Seq<char>, i: int, st: Scan) -> (Scan, int) {
    let c = s[i];
    let quoted = st.single || st.double;
    let in_target = st.into != Collecting::Args && st.tok.len() > 0;
    if is_blank(c) && !quoted {
        (close_token(st), i + 1)
    } else if c == '"' {
        if st.single {
            (keep(st, c), i + 1)
        } else {
            (Scan { double: !st.double, ..st }, i + 1)
        }
    } else if c == '\'' {
        if st.double {
            (keep(st, c), i + 1)
        } else {
            (Scan { single: !st.single, ..st }, i + 1)
        }
    } else if c == '\\' {
        if st.single {
            (keep(st, c), i + 1)
        } else if st.double {
            if i + 1 < s.len() && escapable_in_double(s[i + 1]) {
                (keep(st, s[i + 1]), i + 2)
            } else {
                (keep(st, c), i + 1)
            }
        } else if i + 1 < s.len() {
            (keep(st, s[i + 1]), i + 2)
        } else {
            (st, i + 1)
        }
    } else if c == '|' && !quoted {
        (close_stage(Scan { into: Collecting::Args, ..close_token(st) }), i + 1)
    } else if c == '>' && !quoted && !in_target {
        if next_is(s, i, '>') {
            (redirect(st, false, true), i + 2)
        } else {
            (redirect(st, false, false), i + 1)
        }
    } else if (c == '1' || c == '2') && !quoted && !in_target && next_is(s, i, '>') {
        if next_is(s, i + 1, '>') {
            (redirect(st, c == '2', true), i + 3)
        } else {
            (redirect(st, c == '2', false), i + 2)
        }
    } else {
        (keep(st, c), i + 1)
    }
}

/// The state after reading `s` from position `i` to its end, the pending
/// token and stage flushed.
pub open spec fn scan(s: Seq<char>, i: int, st: Scan) -> Scan
    decreases s.len() - i,
{
    if i >= s.len() {
        close_stage(close_token(st))
    } else {
        let (st2, j) = step(s, i, st);
        scan(s, j, st2)
    }
}

/// What tokenizing the line `s` yields.
pub open spec fn parse(s: Seq<char>) -> Parsed {
    let st = scan(s, 0, start());
    Parsed {
        stages: st.stages,
        out_files: st.out_files,
        err_files: st.err_files,
        out_mode: st.out_mode,
        err_mode: st.err_mode,
    }
}

/// `texts` of a vector with one more string.
pub proof fn lemma_texts_push(v: Seq<String>, x: String)
    ensures
        texts(v.push(x)) == texts(v).push(x@),
{
    assert(texts(v.push(x)) =~= texts(v).push(x@));
}

/// `stage_texts` of a list with one more argument vector.
pub proof fn lemma_stage_texts_push(v: Seq<Vec<String>>, x: Vec<String>)
    ensures
        stage_texts(v.push(x)) == stage_texts(v).push(texts(x@)),
{
    assert(stage_texts(v.push(x)) =~= stage_texts(v).push(texts(x@)));
}

/// The executable scanner state.
struct Scanner {
    stages: Vec<Vec<String>>,
    args: Vec<String>,
    tok: String,
    single: bool,
    double: bool,
    into: Collecting,
    out_files: Vec<String>,
    err_files: Vec<String>,
    out_mode: RedirectMode,
    err_mode: RedirectMode,
}

impl View for Scanner {
    type V = Scan;

    closed spec fn view(&self) -> Scan {
        Scan {
            stages: stage_texts(self.stages@),
            args: texts(self.args@),
            tok: self.tok@,
            single: self.single,
            double: self.double,
            into: self.into,
            out_files: texts(self.out_files@),
            err_files: texts(self.err_files@),
            out_mode: self.out_mode,
            err_mode: self.err_mode,
        }
    }
}

impl Scanner {
    fn new() -> (r: Scanner)
        ensures
            r@ == start(),
    {
        let r = Scanner {
            stages: Vec::new(),
            args: Vec::new(),
            tok: String::new(),
            single: false,
            double: false,
            into: Collecting::Args,
            out_files: Vec::new(),
            err_files: Vec::new(),
            out_mode: RedirectMode::Off,
            err_mode: RedirectMode::Off,
        };
        assert(r@.stages =~= seq![]);
        assert(r@.args =~= seq![]);
        assert(r@.out_files =~= seq![]);
        assert(r@.err_files =~= seq![]);
        r
    }

    fn keep(&mut self, c: char)
        ensures
            final(self)@ == keep(old(self)@, c),
    {
        self.tok.push(c);
    }

    fn close_token(&mut self)
        ensures
            final(self)@ == close_token(old(self)@),
    {
        if !self.tok.as_str().is_empty() {
            let mut t = String::new();
            std::mem::swap(&mut t, &mut self.tok);
            match self.into {
                Collecting::Args => {
                    proof {
                        lemma_texts_push(self.args@, t);
                    }
                    self.args.push(t);
                },
                Collecting::Output => {
                    proof {
                        lemma_texts_push(self.out_files@, t);
                    }
                    self.out_files.push(t);
                },
                Collecting::Error => {
                    proof {
                        lemma_texts_push(self.err_files@, t);
                    }
                    self.err_files.push(t);
                },
            }
        }
    }

    fn close_stage(&mut self)
        ensures
            final(self)@ == close_stage(old(self)@),
    {
        if self.args.len() != 0 {
            let mut a: Vec<String> = Vec::new();
            std::mem::swap(&mut a, &mut self.args);
            proof {
                lemma_stage_texts_push(self.stages@, a);
                assert(texts(self.args@) =~= seq![]);
            }
            self.stages.push(a);
        }
    }

    fn redirect(&mut self, err: bool, append: bool)
        ensures
            final(self)@ == redirect(old(self)@, err, append),
    {
        self.close_token();
        let mode = if append {
            RedirectMode::Append
        } else {
            RedirectMode::Truncate
        };
        if err {
            self.into = Collecting::Error;
            self.err_mode = mode;
        } else {
            self.into = Collecting::Output;
            self.out_mode = mode;
        }
    }
}

/// Tokenizes one command line into piped stages with their redirections.
/// Never fails: an open quote runs to the end of the line, and a redirection
/// operator with no target leaves the target list empty.
pub fn parse_command(input: &str) -> (r: ParsedResult)
    ensures
        r@ == parse(input@),
{
    let s = chars_of(input);
    let n = s.len();
    let mut sc = Scanner::new();
    let mut i: usize = 0;
    while i < n
        invariant
            n == s@.len(),
            i <= n,
            scan(s@, i as int, sc@) == scan(s@, 0, start()),
        decreases n - i,
    {
        let ghost st0 = sc@;
        let ghost i0 = i as int;
        let c = s[i];
        let quoted = sc.single || sc.double;
        let in_target = sc.into != Collecting::Args && !sc.tok.as_str().is_empty();
        if (c == ' ' || c == '\t' || c == '\n') && !quoted {
            sc.close_token();
            i = i + 1;
        } else if c == '"' {
            if sc.single {
                sc.keep(c);
            } else {
                sc.double = !sc.double;
            }
            i = i + 1;
        } else if c == '\'' {
            if sc.double {
                sc.keep(c);
            } else {
                sc.single = !sc.single;
            }
            i = i + 1;
        } else if c == '\\' {
            if sc.single {
                sc.keep(c);
                i = i + 1;
            } else if sc.double {
                if i + 1 < n && (s[i + 1] == '"' || s[i + 1] == '\\' || s[i + 1] == '$' || s[i
                    + 1] == '`') {
                    sc.keep(s[i + 1]);
                    i = i + 2;
                } else {
                    sc.keep(c);
                    i = i + 1;
                }
            } else if i + 1 < n {
                sc.keep(s[i + 1]);
                i = i + 2;
            } else {
                i = i + 1;
            }
        } else if c == '|' && !quoted {
            sc.close_token();
            sc.into = Collecting::Args;
            sc.close_stage();
            i = i + 1;
        } else if c == '>' && !quoted && !in_target {
            if i + 1 < n && s[i + 1] == '>' {
                sc.redirect(false, true);
                i = i + 2;
            } else {
                sc.redirect(false, false);
                i = i + 1;
            }
        } else if (c == '1' || c == '2') && !quoted && !in_target && i + 1 < n && s[i + 1]
            == '>' {
            if i + 2 < n && s[i + 2] == '>' {
                sc.redirect(c == '2', true);
                i = i + 3;
            } else {
                sc.redirect(c == '2', false);
                i = i + 2;
            }
        } else {
            sc.keep(c);
            i = i + 1;
        }
        assert(step(s@, i0, st0) == (sc@, i as int));
    }
    sc.close_token();
    sc.close_stage();
    ParsedResult {
        commands: sc.stages,
        output_file: sc.out_files,
        error_file: sc.err_files,
        output_mode: sc.out_mode,
        error_mode: sc.err_mode,
    }
}


/// The blank-separated words of `s`, in order.
pub open spec fn words(s: Seq<char>) -> Seq<Seq<char>>
    decreases s.len(),
{
    if s.len() == 0 {
        seq![]
    } else {
        let t = s.drop_last();
        let c = s.last();
        let w = words(t);
        if is_blank(c) {
            w
        } else if t.len() == 0 || is_blank(t.last()) {
            w.push(seq![c])
        } else {
            w.update(w.len() - 1, w.last().push(c))
        }
    }
}

/// A character with no meaning to the tokenizer but as part of a word or
/// as a separator.
pub open spec fn plain_char(c: char) -> bool {
    c != '\'' && c != '"' && c != '\\' && c != '|' && c != '>'
}

proof fn lemma_plain_scan(s: Seq<char>, i: int, st: Scan)
    requires
        0 <= i <= s.len(),
        forall|k: int| 0 <= k < s.len() ==> plain_char(#[trigger] s[k]),
        close_token(st).args == words(s.subrange(0, i)),
        st.tok.len() == 0 <==> (i == 0 || is_blank(s[i - 1])),
        st.stages == Seq::<Seq<Seq<char>>>::empty(),
        !st.single,
        !st.double,
        st.into == Collecting::Args,
        st.out_files == Seq::<Seq<char>>::empty(),
        st.err_files == Seq::<Seq<char>>::empty(),
        st.out_mode == RedirectMode::Off,
        st.err_mode == RedirectMode::Off,
    ensures
        scan(s, i, st) == close_stage(Scan { args: words(s), tok: seq![], ..st }),
    decreases s.len() - i,
{
    if i == s.len() {
        assert(s.subrange(0, i) =~= s);
        if st.tok.len() == 0 {
            assert(st.tok =~= seq![]);
        }
        assert(close_token(st) == Scan { args: words(s), tok: seq![], ..st });
    } else {
        let c = s[i];
        assert(plain_char(c));
        let p = s.subrange(0, i + 1);
        assert(p.drop_last() =~= s.subrange(0, i));
        assert(p.last() == c);
        if i > 0 {
            assert(p.drop_last().last() == s[i - 1]);
        }
        let t = s.subrange(0, i);
        let w = words(t);
        assert(words(p) == (if is_blank(c) {
            w
        } else if t.len() == 0 || is_blank(t.last()) {
            w.push(seq![c])
        } else {
            w.update(w.len() - 1, w.last().push(c))
        }));
        let (st2, j) = step(s, i, st);
        assert(j == i + 1);
        if is_blank(c) {
            assert(st2 == close_token(st));
        } else {
            assert(st2 == keep(st, c));
            if st.tok.len() == 0 {
                assert(st.tok.push(c) =~= seq![c]);
            } else {
                assert(w == st.args.push(st.tok));
                assert(st.args.push(st.tok.push(c)) =~= w.update(w.len() - 1, w.last().push(c)));
            }
        }
        assert(close_token(st2).args == words(p));
        lemma_plain_scan(s, i + 1, st2);
    }
}

/// A line with no quote, backslash, pipe or `>` tokenizes into one stage
/// holding its blank-separated words, or into no stage when it is blank,
/// and redirects nothing.
pub proof fn lemma_plain_line(s: Seq<char>)
    requires
        forall|k: int| 0 <= k < s.len() ==> plain_char(#[trigger] s[k]),
    ensures
        parse(s).stages == (if words(s).len() == 0 {
            Seq::<Seq<Seq<char>>>::empty()
        } else {
            seq![words(s)]
        }),
        parse(s).out_files.len() == 0,
        parse(s).err_files.len() == 0,
        parse(s).out_mode == RedirectMode::Off,
        parse(s).err_mode == RedirectMode::Off,
{
    assert(s.subrange(0, 0) =~= Seq::<char>::empty());
    lemma_plain_scan(s, 0, start());
    assert(Seq::<Seq<Seq<char>>>::empty().push(words(s)) =~= seq![words(s)]);
}

/// Inside open quotes a character is literal: while single quotes are open
/// every character but `'` joins the current token, and while double quotes
/// are open every character but `"` and `\` does. So `|`, `>`, `1>` and `2>`
/// are never recognised there, and blanks do not separate.
pub proof fn lemma_quoted_char_is_literal(s: Seq<char>, i: int, st: Scan)
    requires
        0 <= i < s.len(),
        (st.single && s[i] != '\'') || (st.double && s[i] != '"' && s[i] != '\\'),
    ensures
        step(s, i, st) == (keep(st, s[i]), i + 1),
{
}

/// An unescaped `'` outside double quotes opens or closes single quotes and
/// adds nothing to the token; inside double quotes it is an ordinary
/// character. The same holds of `"` with the roles of the quotes swapped.
pub proof fn lemma_quote_toggles(s: Seq<char>, i: int, st: Scan)
    requires
        0 <= i < s.len(),
        s[i] == '\'' || s[i] == '"',
    ensures
        s[i] == '\'' ==> step(s, i, st) == (if st.double {
            (keep(st, s[i]), i + 1)
        } else {
            (Scan { single: !st.single, ..st }, i + 1)
        }),
        s[i] == '"' ==> step(s, i, st) == (if st.single {
            (keep(st, s[i]), i + 1)
        } else {
            (Scan { double: !st.double, ..st }, i + 1)
        }),
{
}

/// Single and double quotes are never open at once.
pub proof fn lemma_quotes_exclusive(s: Seq<char>, i: int, st: Scan)
    requires
        0 <= i < s.len(),
        !(st.single && st.double),
    ensures
        !(step(s, i, st).0.single && step(s, i, st).0.double),
{
}

proof fn lemma_single_quoted_scan(s: Seq<char>, i: int, st: Scan)
    requires
        1 <= i < s.len(),
        s[s.len() - 1] == '\'',
        forall|k: int| 1 <= k < s.len() - 1 ==> #[trigger] s[k] != '\'',
        st.single,
        !st.double,
        st.tok == s.subrange(1, i),
    ensures
        scan(s, i, st) == scan(
            s,
            s.len() - 1,
            Scan { tok: s.subrange(1, s.len() - 1), ..st },
        ),
    decreases s.len() - i,
{
    if i < s.len() - 1 {
        lemma_quoted_char_is_literal(s, i, st);
        assert(s.subrange(1, i).push(s[i]) =~= s.subrange(1, i + 1));
        lemma_single_quoted_scan(s, i + 1, keep(st, s[i]));
    } else {
        assert(Scan { tok: s.subrange(1, s.len() - 1), ..st } == st);
    }
}

/// A single-quoted word is one literal argument whatever it holds: blanks,
/// pipes, `>`, `1>`, `2>`, double quotes and backslashes in it are kept as
/// they are.
pub proof fn lemma_single_quoted_word(q: Seq<char>)
    requires
        q.len() > 0,
        forall|k: int| 0 <= k < q.len() ==> #[trigger] q[k] != '\'',
    ensures
        parse(seq!['\''] + q + seq!['\'']).stages == seq![seq![q]],
        parse(seq!['\''] + q + seq!['\'']).out_files.len() == 0,
        parse(seq!['\''] + q + seq!['\'']).err_files.len() == 0,
        parse(seq!['\''] + q + seq!['\'']).out_mode == RedirectMode::Off,
        parse(seq!['\''] + q + seq!['\'']).err_mode == RedirectMode::Off,
{
    let s = seq!['\''] + q + seq!['\''];
    assert(s.len() == q.len() + 2);
    assert(s[0] == '\'');
    assert(s[s.len() - 1] == '\'');
    assert forall|k: int| 1 <= k < s.len() - 1 implies #[trigger] s[k] != '\'' by {
        assert(s[k] == q[k - 1]);
    }
    let st1 = Scan { single: true, ..start() };
    assert(step(s, 0, start()) == (st1, 1int));
    assert(st1.tok =~= s.subrange(1, 1));
    assert(scan(s, 0, start()) == scan(s, 1, st1));
    lemma_single_quoted_scan(s, 1, st1);
    assert(s.subrange(1, s.len() - 1) =~= q);
    let st2 = Scan { tok: q, ..st1 };
    let st3 = Scan { single: false, ..st2 };
    assert(step(s, s.len() - 1, st2) == (st3, s.len() as int));
    assert(scan(s, s.len() - 1, st2) == scan(s, s.len() as int, st3));
    assert(scan(s, s.len() as int, st3) == close_stage(close_token(st3)));
    assert(seq![].push(seq![q]) =~= seq![seq![q]]);
    assert(seq![].push(q) =~= seq![q]);
}

/// The number of `'` characters in `t`.
pub open spec fn single_quotes(t: Seq<char>) -> nat
    decreases t.len(),
{
    if t.len() == 0 {
        0
    } else {
        (if t[0] == '\'' {
            1nat
        } else {
            0nat
        }) + single_quotes(t.subrange(1, t.len() as int))
    }
}

proof fn lemma_single_quotes_skip(s: Seq<char>, i: int)
    requires
        0 <= i < s.len(),
        s[i] != '\'',
    ensures
        single_quotes(s.subrange(i, s.len() as int)) == single_quotes(
            s.subrange(i + 1, s.len() as int),
        ),
{
    let t = s.subrange(i, s.len() as int);
    assert(t.subrange(1, t.len() as int) =~= s.subrange(i + 1, s.len() as int));
}

proof fn lemma_single_parity_from(s: Seq<char>, i: int, st: Scan)
    requires
        0 <= i <= s.len(),
        forall|k: int| 0 <= k < s.len() ==> #[trigger] s[k] != '"' && s[k] != '\\',
        !st.double,
    ensures
        scan(s, i, st).single == (st.single != (single_quotes(s.subrange(i, s.len() as int)) % 2
            == 1)),
    decreases s.len() - i,
{
    if i == s.len() {
        assert(s.subrange(i, s.len() as int) =~= Seq::<char>::empty());
    } else {
        let (st2, j) = step(s, i, st);
        assert(s[i] != '"' && s[i] != '\\');
        assert(!st2.double);
        let t = s.subrange(i, s.len() as int);
        assert(t.subrange(1, t.len() as int) =~= s.subrange(i + 1, s.len() as int));
        if s[i] == '\'' {
            assert(j == i + 1);
            assert(st2.single == !st.single);
        } else {
            assert(st2.single == st.single);
            lemma_single_quotes_skip(s, i);
            if j >= i + 2 {
                lemma_single_quotes_skip(s, i + 1);
            }
            if j == i + 3 {
                lemma_single_quotes_skip(s, i + 2);
            }
        }
        lemma_single_parity_from(s, j, st2);
    }
}

/// On a line with no `"` and no backslash, single quotes pair up: the
/// line ends inside single quotes exactly when it holds an odd number of
/// `'` characters.
pub proof fn lemma_single_quote_parity(s: Seq<char>)
    requires
        forall|k: int| 0 <= k < s.len() ==> #[trigger] s[k] != '"' && s[k] != '\\',
    ensures
        scan(s, 0, start()).single == (single_quotes(s) % 2 == 1),
{
    assert(s.subrange(0, s.len() as int) =~= s);
    lemma_single_parity_from(s, 0, start());
}

/// Every word in `ws` has at least one character.
pub open spec fn all_nonempty(ws: Seq<Seq<char>>) -> bool {
    forall|m: int| 0 <= m < ws.len() ==> (#[trigger] ws[m]).len() > 0
}

/// Every stage holds at least one argument, and no argument is empty.
pub open spec fn stages_ok(stages: Seq<Seq<Seq<char>>>) -> bool {
    forall|k: int|
        0 <= k < stages.len() ==> (#[trigger] stages[k]).len() > 0 && all_nonempty(stages[k])
}

/// The invariant of tokenizer output: every stage holds at least one
/// argument, no argument or target is empty, and a stream with a target has
/// a redirection mode.
pub open spec fn well_formed(p: Parsed) -> bool {
    &&& stages_ok(p.stages)
    &&& all_nonempty(p.out_files)
    &&& all_nonempty(p.err_files)
    &&& p.out_files.len() > 0 ==> p.out_mode != RedirectMode::Off
    &&& p.err_files.len() > 0 ==> p.err_mode != RedirectMode::Off
}

spec fn scan_ok(st: Scan) -> bool {
    &&& stages_ok(st.stages)
    &&& all_nonempty(st.out_files)
    &&& all_nonempty(st.err_files)
    &&& st.out_files.len() > 0 ==> st.out_mode != RedirectMode::Off
    &&& st.err_files.len() > 0 ==> st.err_mode != RedirectMode::Off
    &&& all_nonempty(st.args)
    &&& st.into == Collecting::Output ==> st.out_mode != RedirectMode::Off
    &&& st.into == Collecting::Error ==> st.err_mode != RedirectMode::Off
}

proof fn lemma_push_nonempty(ws: Seq<Seq<char>>, w: Seq<char>)
    requires
        all_nonempty(ws),
        w.len() > 0,
    ensures
        all_nonempty(ws.push(w)),
{
    assert forall|m: int| 0 <= m < ws.push(w).len() implies (#[trigger] ws.push(w)[m]).len() > 0 by {
        if m < ws.len() {
            assert(ws.push(w)[m] == ws[m]);
        }
    }
}

proof fn lemma_close_token_ok(st: Scan)
    requires
        scan_ok(st),
    ensures
        scan_ok(close_token(st)),
{
    if st.tok.len() > 0 {
        match st.into {
            Collecting::Args => lemma_push_nonempty(st.args, st.tok),
            Collecting::Output => lemma_push_nonempty(st.out_files, st.tok),
            Collecting::Error => lemma_push_nonempty(st.err_files, st.tok),
        }
    }
}

proof fn lemma_close_stage_ok(st: Scan)
    requires
        scan_ok(st),
    ensures
        scan_ok(close_stage(st)),
{
    if st.args.len() > 0 {
        let st2 = close_stage(st);
        assert forall|k: int| 0 <= k < st2.stages.len() implies (#[trigger] st2.stages[k]).len()
            > 0 && all_nonempty(st2.stages[k]) by {
            if k < st.stages.len() {
                assert(st2.stages[k] == st.stages[k]);
            } else {
                assert(st2.stages[k] == st.args);
            }
        }
        assert(st2.args =~= Seq::<Seq<char>>::empty());
    }
}

proof fn lemma_step_ok(s: Seq<char>, i: int, st: Scan)
    requires
        0 <= i < s.len(),
        scan_ok(st),
    ensures
        scan_ok(step(s, i, st).0),
{
    lemma_close_token_ok(st);
    lemma_close_token_ok(Scan { into: Collecting::Args, ..st });
    lemma_close_stage_ok(Scan { into: Collecting::Args, ..close_token(st) });
}

proof fn lemma_scan_ok(s: Seq<char>, i: int, st: Scan)
    requires
        0 <= i <= s.len(),
        scan_ok(st),
    ensures
        scan_ok(scan(s, i, st)),
    decreases s.len() - i,
{
    if i >= s.len() {
        lemma_close_token_ok(st);
        lemma_close_stage_ok(close_token(st));
    } else {
        lemma_step_ok(s, i, st);
        let (st2, j) = step(s, i, st);
        lemma_scan_ok(s, j, st2);
    }
}

/// Whatever the line, the tokenizer's output is well formed.
pub proof fn lemma_parse_well_formed(s: Seq<char>)
    ensures
        well_formed(parse(s)),
{
    lemma_scan_ok(s, 0, start());
}

} // verus!
