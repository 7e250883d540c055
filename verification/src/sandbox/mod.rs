use vstd::prelude::*;

use crate::parse::ast::{lemma_strings_view_push, strings_view};
use crate::parse::lexer::chars_eq;
use crate::text::{chars_of, parse_usize, push_char, spec_parse_usize};

verus! {

/// What the sandbox asks its host to do after a line was evaluated.
#[derive(Debug)]
pub enum SandboxAction {
    /// Print the list of commands.
    ShowHelp,
    /// Print every line with its number.
    Echo,
    /// Print a status message.
    Message(&'static str),
    /// Print an error message.
    Error(&'static str),
    /// Compile the code again.
    Recompile,
    /// Read the file and append its lines (`append_lines`).
    ReadFile(String),
    /// Write the code to the file.
    WriteFile(String),
    /// Print the syntax tree of the code.
    PrintAst,
    /// Compile and run the code with these arguments.
    Exec(Vec<String>),
    /// Stop: the command cannot go on.
    Abort,
}

pub enum SAction {
    ShowHelp,
    Echo,
    Message(Seq<char>),
    Error(Seq<char>),
    Recompile,
    ReadFile(Seq<char>),
    WriteFile(Seq<char>),
    PrintAst,
    Exec(Seq<Seq<char>>),
    Abort,
}

impl View for SandboxAction {
    type V = SAction;

    open spec fn view(&self) -> SAction {
        match self {
            SandboxAction::ShowHelp => SAction::ShowHelp,
            SandboxAction::Echo => SAction::Echo,
            SandboxAction::Message(m) => SAction::Message(m@),
            SandboxAction::Error(m) => SAction::Error(m@),
            SandboxAction::Recompile => SAction::Recompile,
            SandboxAction::ReadFile(f) => SAction::ReadFile(f@),
            SandboxAction::WriteFile(f) => SAction::WriteFile(f@),
            SandboxAction::PrintAst => SAction::PrintAst,
            SandboxAction::Exec(a) => SAction::Exec(strings_view(a@)),
            SandboxAction::Abort => SAction::Abort,
        }
    }
}

pub open spec fn actions_view(s: Seq<SandboxAction>) -> Seq<SAction> {
    s.map_values(|a: SandboxAction| a@)
}

/// An interactive editor of Sea code, one line at a time.
pub struct Sandbox {
    pub lines: Vec<String>,
    /// The 1-based line that the next line of code goes to.
    pub line: usize,
    pub running: bool,
    pub paused: bool,
    pub autoexec: bool,
    pub program_args: Vec<String>,
    pub replace_lines: bool,
    pub output_path: String,
    pub c_output_path: String,
}

pub struct SSandbox {
    pub lines: Seq<Seq<char>>,
    pub line: int,
    pub running: bool,
    pub paused: bool,
    pub autoexec: bool,
    pub program_args: Seq<Seq<char>>,
    pub replace_lines: bool,
    pub output_path: Seq<char>,
    pub c_output_path: Seq<char>,
}

impl View for Sandbox {
    type V = SSandbox;

    open spec fn view(&self) -> SSandbox {
        SSandbox {
            lines: strings_view(self.lines@),
            line: self.line as int,
            running: self.running,
            paused: self.paused,
            autoexec: self.autoexec,
            program_args: strings_view(self.program_args@),
            replace_lines: self.replace_lines,
            output_path: self.output_path@,
            c_output_path: self.c_output_path@,
        }
    }
}

/// The state of `shlex` after a prefix of its input.
pub struct ShlexState {
    pub args: Seq<Seq<char>>,
    pub buf: Seq<char>,
    pub in_str: bool,
    pub prev: char,
}

pub open spec fn shlex_step(st: ShlexState, ch: char) -> ShlexState {
    if ch == '"' && st.prev != '\\' {
        ShlexState { in_str: !st.in_str, prev: ch, ..st }
    } else if ch == ' ' {
        if st.buf.len() > 0 {
            ShlexState { args: st.args.push(st.buf), buf: Seq::empty(), prev: ch, ..st }
        } else {
            ShlexState { prev: ch, ..st }
        }
    } else {
        ShlexState { buf: st.buf.push(ch), prev: ch, ..st }
    }
}

pub open spec fn shlex_fold(s: Seq<char>) -> ShlexState
    decreases s.len(),
{
    if s.len() == 0 {
        ShlexState { args: Seq::empty(), buf: Seq::empty(), in_str: false, prev: ' ' }
    } else {
        shlex_step(shlex_fold(s.drop_last()), s.last())
    }
}

/// The words of `s`: split at spaces, with unescaped double quotes left out.
pub open spec fn spec_shlex(s: Seq<char>) -> Seq<Seq<char>> {
    let st = shlex_fold(s);
    if st.buf.len() > 0 {
        st.args.push(st.buf)
    } else {
        st.args
    }
}

/// Whether two spaces follow each other in `s` (on such input the splitting does
/// not end).
pub open spec fn has_double_space(s: Seq<char>) -> bool {
    exists|i: int| 0 <= i < s.len() - 1 && #[trigger] s[i] == ' ' && s[i + 1] == ' '
}

/// `lines` joined by newlines.
pub open spec fn join_lines(lines: Seq<Seq<char>>) -> Seq<char>
    decreases lines.len(),
{
    if lines.len() == 0 {
        Seq::empty()
    } else if lines.len() == 1 {
        lines[0]
    } else {
        join_lines(lines.drop_last()) + seq!['\n'] + lines.last()
    }
}

/// The full name of a command given by its short name.
pub open spec fn command_name(cmd: Seq<char>) -> Seq<char> {
    if cmd == "h"@ {
        "help"@
    } else if cmd == "e"@ {
        "echo"@
    } else if cmd == "q"@ {
        "quit"@
    } else if cmd == "R"@ {
        "reset"@
    } else if cmd == "p"@ {
        "pos"@
    } else if cmd == "u"@ {
        "pause"@
    } else if cmd == "r"@ {
        "read"@
    } else if cmd == "w"@ {
        "write"@
    } else if cmd == "P"@ {
        "replace"@
    } else if cmd == "a"@ {
        "ast"@
    } else if cmd == "x"@ {
        "exec"@
    } else if cmd == "A"@ {
        "autoexec"@
    } else {
        cmd
    }
}

/// A short command does exactly what its long name does (`\\h` is `\\help`).
pub proof fn law_short_command_is_long(sb: SSandbox, cmd: Seq<char>, args: Seq<Seq<char>>)
    ensures
        sb.run_command(cmd, args) == sb.run_command(command_name(cmd), args),
{
    reveal_strlit("h");
    reveal_strlit("help");
    reveal_strlit("e");
    reveal_strlit("echo");
    reveal_strlit("q");
    reveal_strlit("quit");
    reveal_strlit("R");
    reveal_strlit("reset");
    reveal_strlit("p");
    reveal_strlit("pos");
    reveal_strlit("u");
    reveal_strlit("pause");
    reveal_strlit("r");
    reveal_strlit("read");
    reveal_strlit("w");
    reveal_strlit("write");
    reveal_strlit("P");
    reveal_strlit("replace");
    reveal_strlit("a");
    reveal_strlit("ast");
    reveal_strlit("x");
    reveal_strlit("exec");
    reveal_strlit("A");
    reveal_strlit("autoexec");
    assert("h"@.len() == 1);
    assert("help"@.len() == 4);
    assert("e"@.len() == 1);
    assert("echo"@.len() == 4);
    assert("q"@.len() == 1);
    assert("quit"@.len() == 4);
    assert("R"@.len() == 1);
    assert("reset"@.len() == 5);
    assert("p"@.len() == 1);
    assert("pos"@.len() == 3);
    assert("u"@.len() == 1);
    assert("pause"@.len() == 5);
    assert("r"@.len() == 1);
    assert("read"@.len() == 4);
    assert("w"@.len() == 1);
    assert("write"@.len() == 5);
    assert("P"@.len() == 1);
    assert("replace"@.len() == 7);
    assert("a"@.len() == 1);
    assert("ast"@.len() == 3);
    assert("x"@.len() == 1);
    assert("exec"@.len() == 4);
    assert("A"@.len() == 1);
    assert("autoexec"@.len() == 8);
    let n = command_name(cmd);
    assert(n == cmd || n.len() > 1);
    assert(command_name(n) == n);
}

impl SSandbox {
    /// What a command does to the sandbox, and what it asks the host to do.
    pub open spec fn run_command(self, cmd: Seq<char>, args: Seq<Seq<char>>) -> (Seq<SAction>, SSandbox) {
        let name = command_name(cmd);
        if name == "help"@ {
            (seq![SAction::ShowHelp], self)
        } else if name == "echo"@ {
            (seq![SAction::Echo], self)
        } else if name == "quit"@ {
            (Seq::empty(), SSandbox { running: false, ..self })
        } else if name == "reset"@ {
            (seq![SAction::Recompile], SSandbox { lines: Seq::empty(), line: 1, ..self })
        } else if name == "pos"@ {
            if args.len() == 0 {
                (seq![SAction::Error("\\pos <arg>: no argument specified"@)], self)
            } else if args[0] == "end"@ {
                (Seq::empty(), SSandbox { line: self.lines.len() + 1int, ..self })
            } else if spec_parse_usize(args[0]) is None {
                (
                    seq![SAction::Error("\\pos <arg>: arg must be an integer or `end`"@), SAction::Abort],
                    self,
                )
            } else {
                (Seq::empty(), SSandbox { line: spec_parse_usize(args[0])->0 as int, ..self })
            }
        } else if name == "pause"@ {
            if !self.paused {
                (seq![SAction::Message("Paused compilation."@)], SSandbox { paused: true, ..self })
            } else {
                (
                    seq![SAction::Message("Unpaused compilation."@), SAction::Recompile],
                    SSandbox { paused: false, ..self },
                )
            }
        } else if name == "read"@ {
            if args.len() == 0 {
                (seq![SAction::Error("\\read <arg>: no argument specified"@), SAction::Abort], self)
            } else {
                (seq![SAction::ReadFile(args[0])], self)
            }
        } else if name == "write"@ {
            if args.len() == 0 {
                (seq![SAction::Error("\\write <arg>: no argument specified"@), SAction::Abort], self)
            } else {
                (seq![SAction::WriteFile(args[0])], self)
            }
        } else if name == "replace"@ {
            if !self.replace_lines {
                (seq![SAction::Message("Replacing lines."@)], SSandbox { replace_lines: true, ..self })
            } else {
                (seq![SAction::Message("Shifting lines."@)], SSandbox { replace_lines: false, ..self })
            }
        } else if name == "ast"@ {
            (seq![SAction::PrintAst], self)
        } else if name == "exec"@ {
            if args.len() > 0 {
                (seq![SAction::Exec(args)], self)
            } else {
                (seq![SAction::Exec(self.program_args)], self)
            }
        } else if name == "autoexec"@ {
            if !self.autoexec {
                (seq![SAction::Message("Toggled autoexec on."@)], SSandbox { autoexec: true, ..self })
            } else {
                (seq![SAction::Message("Toggled autoexec off."@)], SSandbox { autoexec: false, ..self })
            }
        } else if name == "args"@ {
            (Seq::empty(), SSandbox { program_args: args, ..self })
        } else {
            (seq![SAction::Error("invalid command, see \\help"@)], self)
        }
    }

    /// What a line typed into the sandbox does: a `\` command, or a line of code.
    pub open spec fn eval(self, line: Seq<char>) -> (Seq<SAction>, SSandbox) {
        if line.len() == 0 {
            (Seq::empty(), self)
        } else if line[0] == '\\' {
            if line == "\\"@ {
                (Seq::empty(), self)
            } else {
                let split = spec_shlex(line);
                self.run_command(split[0].drop_first(), split.drop_first())
            }
        } else {
            let escaped = line.last() == '\\';
            let text = if escaped {
                line.drop_last()
            } else {
                line
            };
            let lines = if self.line > self.lines.len() {
                self.lines.push(text)
            } else if self.replace_lines {
                self.lines.update(self.line - 1, text)
            } else {
                self.lines.insert(self.line - 1, text)
            };
            (
                if !escaped && !self.paused {
                    seq![SAction::Recompile]
                } else {
                    Seq::empty()
                },
                SSandbox { lines, line: self.line + 1, ..self },
            )
        }
    }
}

/// No word that `shlex` gives is empty or holds a space.
pub proof fn law_shlex_words(s: Seq<char>)
    ensures
        forall|i: int|
            0 <= i < spec_shlex(s).len() ==> spec_shlex(s)[i].len() > 0 && !spec_shlex(
                s,
            )[i].contains(' '),
{
    lemma_shlex_fold_words(s);
}

proof fn lemma_shlex_fold_words(s: Seq<char>)
    ensures
        forall|i: int|
            0 <= i < shlex_fold(s).args.len() ==> shlex_fold(s).args[i].len() > 0 && !shlex_fold(
                s,
            ).args[i].contains(' '),
        !shlex_fold(s).buf.contains(' '),
    decreases s.len(),
{
    if s.len() > 0 {
        lemma_shlex_fold_words(s.drop_last());
        let st = shlex_fold(s.drop_last());
        let ch = s.last();
        if !(ch == '"' && st.prev != '\\') && ch != ' ' {
            assert forall|j: int| 0 <= j < st.buf.push(ch).len() implies st.buf.push(ch)[j] != ' ' by {
                if j < st.buf.len() {
                    assert(st.buf.push(ch)[j] == st.buf[j]);
                }
            }
        }
    }
}

proof fn lemma_shlex_first(s: Seq<char>)
    requires
        s.len() > 0,
        s[0] == '\\',
    ensures
        ({
            let st = shlex_fold(s);
            (st.args.len() > 0 && st.args[0].len() > 0 && st.args[0][0] == '\\') || (st.args.len()
                == 0 && st.buf.len() > 0 && st.buf[0] == '\\')
        }),
        spec_shlex(s).len() > 0,
        spec_shlex(s)[0].len() > 0,
        spec_shlex(s)[0][0] == '\\',
    decreases s.len(),
{
    if s.len() > 1 {
        let p = s.drop_last();
        assert(p[0] == '\\');
        lemma_shlex_first(p);
        let st = shlex_fold(p);
        let ch = s.last();
        assert(shlex_fold(s) == shlex_step(st, ch));
        if ch == '"' && st.prev != '\\' {
        } else if ch == ' ' {
            if st.buf.len() > 0 {
                assert(st.args.push(st.buf)[0] == (if st.args.len() > 0 {
                    st.args[0]
                } else {
                    st.buf
                }));
            }
        } else {
            if st.args.len() == 0 {
                assert(st.buf.push(ch)[0] == '\\');
            }
        }
    } else {
        assert(s.drop_last() =~= Seq::<char>::empty());
        let init = shlex_fold(s.drop_last());
        assert(init.buf.len() == 0 && init.args.len() == 0);
        assert(shlex_fold(s) == shlex_step(init, s[0]));
        assert(init.buf.push(s[0])[0] == '\\');
    }
    let st = shlex_fold(s);
    if st.buf.len() > 0 {
        assert(st.args.push(st.buf)[0] == (if st.args.len() > 0 {
            st.args[0]
        } else {
            st.buf
        }));
    }
}

/// The full name of the command `cmd`.
fn full_command_name(cmd: &Vec<char>) -> (r: Vec<char>)
    ensures
        r@ == command_name(cmd@),
{
    if chars_eq(cmd, "h") {
        chars_of("help")
    } else if chars_eq(cmd, "e") {
        chars_of("echo")
    } else if chars_eq(cmd, "q") {
        chars_of("quit")
    } else if chars_eq(cmd, "R") {
        chars_of("reset")
    } else if chars_eq(cmd, "p") {
        chars_of("pos")
    } else if chars_eq(cmd, "u") {
        chars_of("pause")
    } else if chars_eq(cmd, "r") {
        chars_of("read")
    } else if chars_eq(cmd, "w") {
        chars_of("write")
    } else if chars_eq(cmd, "P") {
        chars_of("replace")
    } else if chars_eq(cmd, "a") {
        chars_of("ast")
    } else if chars_eq(cmd, "x") {
        chars_of("exec")
    } else if chars_eq(cmd, "A") {
        chars_of("autoexec")
    } else {
        cmd.clone()
    }
}

fn one_action(a: SandboxAction) -> (r: Vec<SandboxAction>)
    ensures
        actions_view(r@) == seq![a@],
{
    let mut r = Vec::new();
    r.push(a);
    proof {
        assert(actions_view(r@) =~= seq![a@]);
    }
    r
}

fn two_actions(a: SandboxAction, b: SandboxAction) -> (r: Vec<SandboxAction>)
    ensures
        actions_view(r@) == seq![a@, b@],
{
    let mut r = Vec::new();
    r.push(a);
    r.push(b);
    proof {
        assert(actions_view(r@) =~= seq![a@, b@]);
    }
    r
}

fn no_actions() -> (r: Vec<SandboxAction>)
    ensures
        actions_view(r@) == Seq::<SAction>::empty(),
{
    let r = Vec::new();
    proof {
        assert(actions_view(r@) =~= Seq::<SAction>::empty());
    }
    r
}

fn copy_strings(v: &Vec<String>) -> (r: Vec<String>)
    ensures
        strings_view(r@) == strings_view(v@),
{
    let mut r: Vec<String> = Vec::new();
    let mut i: usize = 0;
    while i < v.len()
        invariant
            i <= v.len(),
            strings_view(r@) == strings_view(v@.take(i as int)),
        decreases v.len() - i,
    {
        let s = v[i].clone();
        proof {
            lemma_strings_view_push(r@, s);
            lemma_strings_view_push(v@.take(i as int), v@[i as int]);
            assert(v@.take(i + 1) =~= v@.take(i as int).push(v@[i as int]));
        }
        r.push(s);
        i = i + 1;
    }
    proof {
        assert(v@.take(i as int) =~= v@);
    }
    r
}

impl Sandbox {
    /// A sandbox with no code, at line 1.
    pub fn new() -> (r: Sandbox)
        ensures
            r@ == (SSandbox {
                lines: Seq::empty(),
                line: 1,
                running: false,
                paused: false,
                autoexec: false,
                program_args: Seq::empty(),
                replace_lines: false,
                output_path: ".sea/sandbox/program"@,
                c_output_path: ".sea/sandbox/program.c"@,
            }),
    {
        let r = Sandbox {
            lines: Vec::new(),
            line: 1,
            running: false,
            paused: false,
            autoexec: false,
            program_args: Vec::new(),
            replace_lines: false,
            output_path: ".sea/sandbox/program".to_owned(),
            c_output_path: ".sea/sandbox/program.c".to_owned(),
        };
        proof {
            assert(strings_view(r.lines@) =~= Seq::empty());
            assert(strings_view(r.program_args@) =~= Seq::empty());
        }
        r
    }

    /// Moves to `line` if it is not after the current line; says whether it did.
    pub fn set_line(&mut self, line: usize) -> (r: bool)
        ensures
            r == (line <= old(self).line),
            final(self)@ == (if r {
                SSandbox { line: line as int, ..old(self)@ }
            } else {
                old(self)@
            }),
    {
        if line > self.line {
            false
        } else {
            self.line = line;
            true
        }
    }

    /// The code: all lines joined by newlines.
    pub fn get_code(&self) -> (r: String)
        ensures
            r@ == join_lines(self@.lines),
    {
        let mut code = String::new();
        let mut i: usize = 0;
        let ghost lines = self@.lines;
        proof {
            assert(lines.take(0) =~= Seq::<Seq<char>>::empty());
        }
        while i < self.lines.len()
            invariant
                i <= self.lines.len(),
                lines == strings_view(self.lines@),
                code@ == join_lines(lines.take(i as int)),
            decreases self.lines.len() - i,
        {
            proof {
                assert(lines.take(i + 1).drop_last() =~= lines.take(i as int));
                assert(lines[i as int] == self.lines@[i as int]@);
            }
            if i > 0 {
                push_char(&mut code, '\n');
            }
            let cs = chars_of(self.lines[i].as_str());
            let ghost before = code@;
            let mut j: usize = 0;
            while j < cs.len()
                invariant
                    j <= cs.len(),
                    code@ == before + cs@.take(j as int),
                decreases cs.len() - j,
            {
                push_char(&mut code, cs[j]);
                proof {
                    assert(cs@.take(j + 1) =~= cs@.take(j as int).push(cs@[j as int]));
                }
                j = j + 1;
            }
            proof {
                assert(cs@.take(j as int) =~= cs@);
                if i == 0 {
                    assert(code@ =~= join_lines(lines.take(1)));
                } else {
                    assert(code@ =~= join_lines(lines.take(i + 1)));
                }
            }
            i = i + 1;
        }
        proof {
            assert(lines.take(i as int) =~= lines);
        }
        code
    }

    /// The words of `text`: split at spaces, with unescaped double quotes left out.
    pub fn shlex(&self, text: String) -> (r: Vec<String>)
        requires
            !has_double_space(text@),
        ensures
            strings_view(r@) == spec_shlex(text@),
    {
        let cs = chars_of(text.as_str());
        let mut args: Vec<String> = Vec::new();
        let mut buf = String::new();
        let mut buf_filled = false;
        let mut in_str = false;
        let mut prev = ' ';
        let mut i: usize = 0;
        proof {
            assert(strings_view(args@) =~= Seq::empty());
            assert(cs@.take(0) =~= Seq::<char>::empty());
        }
        while i < cs.len()
            invariant
                i <= cs.len(),
                cs@ == text@,
                buf_filled == (buf@.len() > 0),
                shlex_fold(cs@.take(i as int)) == (ShlexState {
                    args: strings_view(args@),
                    buf: buf@,
                    in_str,
                    prev,
                }),
            decreases cs.len() - i,
        {
            proof {
                assert(cs@.take(i + 1).drop_last() =~= cs@.take(i as int));
            }
            let ch = cs[i];
            if ch == '"' && prev != '\\' {
                in_str = !in_str;
            } else if ch == ' ' {
                if buf_filled {
                    let b = buf;
                    proof {
                        lemma_strings_view_push(args@, b);
                    }
                    args.push(b);
                    buf = String::new();
                    buf_filled = false;
                }
            } else {
                push_char(&mut buf, ch);
                buf_filled = true;
            }
            prev = ch;
            i = i + 1;
        }
        proof {
            assert(cs@.take(i as int) =~= cs@);
        }
        if buf_filled {
            proof {
                lemma_strings_view_push(args@, buf);
            }
            args.push(buf);
        }
        args
    }

    /// Runs the command `cmd` (a full name or a short one) with `args`.
    pub fn eval_args(&mut self, cmd: &String, args: Vec<String>) -> (r: Vec<SandboxAction>)
        requires
            old(self)@.lines.len() < usize::MAX,
        ensures
            (actions_view(r@), final(self)@) == old(self)@.run_command(cmd@, strings_view(args@)),
    {
        let name = full_command_name(&chars_of(cmd.as_str()));
        proof {
            crate::parse::ast::lemma_strings_view_len(args@);
        }
        if chars_eq(&name, "help") {
            one_action(SandboxAction::ShowHelp)
        } else if chars_eq(&name, "echo") {
            one_action(SandboxAction::Echo)
        } else if chars_eq(&name, "quit") {
            self.running = false;
            no_actions()
        } else if chars_eq(&name, "reset") {
            self.lines = Vec::new();
            self.line = 1;
            proof {
                assert(strings_view(self.lines@) =~= Seq::empty());
            }
            one_action(SandboxAction::Recompile)
        } else if chars_eq(&name, "pos") {
            if args.len() == 0 {
                one_action(SandboxAction::Error("\\pos <arg>: no argument specified"))
            } else {
                let arg = chars_of(args[0].as_str());
                if chars_eq(&arg, "end") {
                    proof {
                        crate::parse::ast::lemma_strings_view_len(self.lines@);
                    }
                    self.line = self.lines.len() + 1;
                    no_actions()
                } else {
                    match parse_usize(&args[0]) {
                        Some(n) => {
                            self.line = n;
                            no_actions()
                        },
                        None => two_actions(
                            SandboxAction::Error("\\pos <arg>: arg must be an integer or `end`"),
                            SandboxAction::Abort,
                        ),
                    }
                }
            }
        } else if chars_eq(&name, "pause") {
            self.paused = !self.paused;
            if self.paused {
                one_action(SandboxAction::Message("Paused compilation."))
            } else {
                two_actions(SandboxAction::Message("Unpaused compilation."), SandboxAction::Recompile)
            }
        } else if chars_eq(&name, "read") {
            if args.len() == 0 {
                two_actions(
                    SandboxAction::Error("\\read <arg>: no argument specified"),
                    SandboxAction::Abort,
                )
            } else {
                one_action(SandboxAction::ReadFile(args[0].clone()))
            }
        } else if chars_eq(&name, "write") {
            if args.len() == 0 {
                two_actions(
                    SandboxAction::Error("\\write <arg>: no argument specified"),
                    SandboxAction::Abort,
                )
            } else {
                one_action(SandboxAction::WriteFile(args[0].clone()))
            }
        } else if chars_eq(&name, "replace") {
            self.replace_lines = !self.replace_lines;
            if self.replace_lines {
                one_action(SandboxAction::Message("Replacing lines."))
            } else {
                one_action(SandboxAction::Message("Shifting lines."))
            }
        } else if chars_eq(&name, "ast") {
            one_action(SandboxAction::PrintAst)
        } else if chars_eq(&name, "exec") {
            if args.len() > 0 {
                one_action(SandboxAction::Exec(args))
            } else {
                one_action(SandboxAction::Exec(copy_strings(&self.program_args)))
            }
        } else if chars_eq(&name, "autoexec") {
            self.autoexec = !self.autoexec;
            if self.autoexec {
                one_action(SandboxAction::Message("Toggled autoexec on."))
            } else {
                one_action(SandboxAction::Message("Toggled autoexec off."))
            }
        } else if chars_eq(&name, "args") {
            self.program_args = args;
            no_actions()
        } else {
            one_action(SandboxAction::Error("invalid command, see \\help"))
        }
    }

    /// Evaluates a line typed into the sandbox: a `\\` command, or a line of code
    /// that goes to the current line (a trailing `\\` holds back compilation).
    pub fn eval(&mut self, line: String) -> (r: Vec<SandboxAction>)
        requires
            line@.len() > 0 && line@[0] == '\\' ==> !has_double_space(line@),
            line@.len() > 0 && line@[0] != '\\' ==> 1 <= old(self).line < usize::MAX,
            old(self)@.lines.len() < usize::MAX,
        ensures
            (actions_view(r@), final(self)@) == old(self)@.eval(line@),
    {
        let cs = chars_of(line.as_str());
        if cs.len() == 0 {
            return no_actions();
        }
        if cs[0] == '\\' {
            if chars_eq(&cs, "\\") {
                return no_actions();
            }
            proof {
                lemma_shlex_first(line@);
            }
            let mut split = self.shlex(line);
            proof {
                crate::parse::ast::lemma_strings_view_len(split@);
            }
            let first = split.remove(0);
            proof {
                assert(strings_view(split@) =~= spec_shlex(cs@).drop_first());
            }
            let fc = chars_of(first.as_str());
            let mut cmd = String::new();
            let mut i: usize = 1;
            while i < fc.len()
                invariant
                    1 <= i <= fc.len(),
                    cmd@ == fc@.subrange(1, i as int),
                decreases fc.len() - i,
            {
                push_char(&mut cmd, fc[i]);
                proof {
                    assert(fc@.subrange(1, i + 1) =~= fc@.subrange(1, i as int).push(fc@[i as int]));
                }
                i = i + 1;
            }
            proof {
                assert(cmd@ =~= fc@.drop_first());
            }
            self.eval_args(&cmd, split)
        } else {
            let escaped = cs[cs.len() - 1] == '\\';
            let text = if escaped {
                let mut t = String::new();
                let mut i: usize = 0;
                while i + 1 < cs.len()
                    invariant
                        i + 1 <= cs.len(),
                        t@ == cs@.take(i as int),
                    decreases cs.len() - i,
                {
                    push_char(&mut t, cs[i]);
                    proof {
                        assert(cs@.take(i + 1) =~= cs@.take(i as int).push(cs@[i as int]));
                    }
                    i = i + 1;
                }
                proof {
                    assert(t@ =~= cs@.drop_last());
                }
                t
            } else {
                line
            };
            let ghost before = self@.lines;
            proof {
                crate::parse::ast::lemma_strings_view_len(self.lines@);
            }
            if self.line > self.lines.len() {
                proof {
                    lemma_strings_view_push(self.lines@, text);
                }
                self.lines.push(text);
            } else if self.replace_lines {
                let ghost old_lines = self.lines@;
                self.lines.set(self.line - 1, text);
                proof {
                    assert(strings_view(self.lines@) =~= before.update(self.line - 1, text@));
                }
            } else {
                let ghost old_lines = self.lines@;
                self.lines.insert(self.line - 1, text);
                proof {
                    assert(strings_view(self.lines@) =~= before.insert(self.line - 1, text@));
                }
            }
            self.line = self.line + 1;
            if !escaped && !self.paused {
                one_action(SandboxAction::Recompile)
            } else {
                no_actions()
            }
        }
    }

    /// Appends the lines read for a `\\read` command.
    pub fn append_lines(&mut self, lines: Vec<String>)
        ensures
            final(self)@ == (SSandbox { lines: old(self)@.lines + strings_view(lines@), ..old(self)@ }),
    {
        let mut i: usize = 0;
        let ghost before = self@.lines;
        proof {
            assert(before + strings_view(lines@).take(0) =~= before);
        }
        while i < lines.len()
            invariant
                i <= lines.len(),
                self@.lines == before + strings_view(lines@).take(i as int),
                self@.line == old(self)@.line,
                self@.running == old(self)@.running,
                self@.paused == old(self)@.paused,
                self@.autoexec == old(self)@.autoexec,
                self@.program_args == old(self)@.program_args,
                self@.replace_lines == old(self)@.replace_lines,
                self@.output_path == old(self)@.output_path,
                self@.c_output_path == old(self)@.c_output_path,
            decreases lines.len() - i,
        {
            let s = lines[i].clone();
            proof {
                lemma_strings_view_push(self.lines@, s);
                crate::parse::ast::lemma_strings_view_len(lines@);
                assert(before + strings_view(lines@).take(i + 1) =~= (before + strings_view(
                    lines@,
                ).take(i as int)).push(s@));
            }
            self.lines.push(s);
            i = i + 1;
        }
        proof {
            crate::parse::ast::lemma_strings_view_len(lines@);
            assert(strings_view(lines@).take(i as int) =~= strings_view(lines@));
        }
    }
}


/// `\reset` (and its short form `\R`) clears the code: the sandbox holds no
/// line, the cursor is back on line 1, a recompilation is asked for, and the
/// sandbox's settings stay as they were.
pub proof fn law_reset_clears_the_code(sb: SSandbox, cmd: Seq<char>, args: Seq<Seq<char>>)
    requires
        cmd == seq!['r', 'e', 's', 'e', 't'] || cmd == seq!['R'],
    ensures
        sb.run_command(cmd, args).0 == seq![SAction::Recompile],
        sb.run_command(cmd, args).1.lines.len() == 0,
        sb.run_command(cmd, args).1.line == 1,
        sb.run_command(cmd, args).1.running == sb.running,
        sb.run_command(cmd, args).1.paused == sb.paused,
        sb.run_command(cmd, args).1.autoexec == sb.autoexec,
        sb.run_command(cmd, args).1.program_args == sb.program_args,
        sb.run_command(cmd, args).1.replace_lines == sb.replace_lines,
        sb.run_command(cmd, args).1.output_path == sb.output_path,
        sb.run_command(cmd, args).1.c_output_path == sb.c_output_path,
{
    reveal_strlit("h");
    reveal_strlit("e");
    reveal_strlit("q");
    reveal_strlit("R");
    reveal_strlit("reset");
    reveal_strlit("help");
    reveal_strlit("echo");
    reveal_strlit("quit");
    assert("h"@ =~= seq!['h']);
    assert("e"@ =~= seq!['e']);
    assert("q"@ =~= seq!['q']);
    assert("R"@ =~= seq!['R']);
    assert(seq!['R'] != seq!['h']) by {
        assert(seq!['R'][0] != seq!['h'][0]);
    }
    assert(seq!['R'] != seq!['e']) by {
        assert(seq!['R'][0] != seq!['e'][0]);
    }
    assert(seq!['R'] != seq!['q']) by {
        assert(seq!['R'][0] != seq!['q'][0]);
    }
    assert("reset"@ =~= seq!['r', 'e', 's', 'e', 't']);
    assert("help"@.len() == 4 && "echo"@.len() == 4 && "quit"@.len() == 4);
    reveal_strlit("p");
    assert("p"@.len() == 1);
    reveal_strlit("u");
    assert("u"@.len() == 1);
    reveal_strlit("r");
    assert("r"@.len() == 1);
    reveal_strlit("w");
    assert("w"@.len() == 1);
    reveal_strlit("P");
    assert("P"@.len() == 1);
    reveal_strlit("a");
    assert("a"@.len() == 1);
    reveal_strlit("x");
    assert("x"@.len() == 1);
    reveal_strlit("A");
    assert("A"@.len() == 1);
    assert(command_name(cmd) == "reset"@);
}

} // verus!
