//! `jgit autocomplete`: print, install or remove the snippet that hooks jgit's
//! completions into a shell.
use vstd::prelude::*;
use crate::paths::{join, join_of, parent, parent_of};
use crate::session::{
    concat2, concat3, finish, finish_v, fixed_line, line, line_v, lines_view, joined, no_lines, quiet, single,
    step, step_v, Effect, EffectV, Event, EventV, Line, LineV, Step, StepV, Tone,
};
use crate::text::{
    after_last, border_free, chars_of, contains, contains_str, last_index_in,
    lemma_border_free_by_first, lemma_contains_appended, lemma_remove_all_absent, lemma_remove_appended_line,
    only_at,
    remove_all, remove_all_of, slice_string,
};

verus! {

/// A shell that jgit can complete in.
#[derive(Clone, Copy, Debug, PartialEq, Eq, Structural)]
pub enum Shell {
    Bash,
    Fish,
    Zsh,
}

/// What to do with the snippet.
#[derive(Clone, Copy, Debug, PartialEq, Eq, Structural)]
pub enum Operation {
    /// Print it.
    Generate,
    /// Add it to the shell's start-up files.
    Install,
    /// Take it out of them again.
    Uninstall,
}

/// The options of `jgit autocomplete`.
pub struct AutocompleteCommand {
    /// The shell; the one `SHELL` names where none is given.
    pub shell: Option<Shell>,
    pub operation: Operation,
}

/// The snippet for `~/.bashrc`.
pub fn bash_script() -> (s: &'static str)
    ensures
        s@ == bash_text(),
{
    "#> Added by jgit install (~/.bashrc)\nsource <(COMPLETE=bash jgit)\n#< end"
}

/// The snippet for `~/.zshrc`.
pub fn zsh_script() -> (s: &'static str)
    ensures
        s@ == zsh_text(),
{
    "#> Added by jgit install (~/.zshrc)\nsource <(COMPLETE=zsh jgit)\n#< end"
}

/// The contents of `~/.config/fish/conf.d/jgit.fish`.
pub fn fish_script() -> (s: &'static str)
    ensures
        s@ == fish_text(),
{
    "# Added by jgit install (~/.config/fish/conf.d/jgit.fish)\nif status is-interactive\n  COMPLETE=fish jgit | source\nend"
}

pub open spec fn bash_text() -> Seq<char> {
    "#> Added by jgit install (~/.bashrc)\nsource <(COMPLETE=bash jgit)\n#< end"@
}

pub open spec fn zsh_text() -> Seq<char> {
    "#> Added by jgit install (~/.zshrc)\nsource <(COMPLETE=zsh jgit)\n#< end"@
}

pub open spec fn fish_text() -> Seq<char> {
    "# Added by jgit install (~/.config/fish/conf.d/jgit.fish)\nif status is-interactive\n  COMPLETE=fish jgit | source\nend"@
}

/// The snippet for a shell.
pub open spec fn script(sh: Shell) -> Seq<char> {
    match sh {
        Shell::Bash => bash_text(),
        Shell::Zsh => zsh_text(),
        Shell::Fish => fish_text(),
    }
}

/// Where a shell's snippet goes, relative to the home directory.
pub open spec fn home_file(sh: Shell) -> Seq<char> {
    match sh {
        Shell::Bash => ".bashrc"@,
        Shell::Zsh => ".zshrc"@,
        Shell::Fish => ".config/fish/conf.d/jgit.fish"@,
    }
}

/// The shell that a `SHELL` value names: its last `/`-separated piece must be
/// `bash`, `fish` or `zsh`; otherwise that piece is given back.
pub open spec fn shell_named(path: Seq<char>) -> Result<Shell, Seq<char>> {
    let name = after_last(path, '/');
    if name == "bash"@ {
        Ok(Shell::Bash)
    } else if name == "fish"@ {
        Ok(Shell::Fish)
    } else if name == "zsh"@ {
        Ok(Shell::Zsh)
    } else {
        Err(name)
    }
}

/// Where a run of `jgit autocomplete` stands.
#[derive(Clone, Copy, Debug, PartialEq, Eq, Structural)]
pub enum CompletionStage {
    Begin,
    AwaitShell,
    AwaitHome,
    AwaitRead,
    AwaitMkdir,
    AwaitWrite,
    AwaitAppend,
    AwaitExists,
    AwaitRemove,
    Over,
}

/// A run of `jgit autocomplete`.
pub struct CompletionRun {
    pub operation: Operation,
    pub shell: Option<Shell>,
    pub stage: CompletionStage,
    /// The file the snippet goes into.
    pub path: String,
}

pub struct CompletionV {
    pub operation: Operation,
    pub shell: Option<Shell>,
    pub stage: CompletionStage,
    pub path: Seq<char>,
}

impl View for CompletionRun {
    type V = CompletionV;

    open spec fn view(&self) -> CompletionV {
        CompletionV {
            operation: self.operation,
            shell: self.shell,
            stage: self.stage,
            path: self.path@,
        }
    }
}

/// A run that has not begun.
pub open spec fn completion_start(cmd: AutocompleteCommand) -> CompletionV {
    CompletionV { operation: cmd.operation, shell: cmd.shell, stage: CompletionStage::Begin, path: seq![] }
}

/// The run stops, saying nothing.
pub open spec fn completion_over(s: CompletionV) -> (CompletionV, StepV) {
    (CompletionV { stage: CompletionStage::Over, ..s }, step_v(seq![], EffectV::Finish))
}

/// The shell is known: print the snippet, or find the home directory.
pub open spec fn dispatch(s: CompletionV, sh: Shell) -> (CompletionV, StepV) {
    match s.operation {
        Operation::Generate => (
            CompletionV { stage: CompletionStage::Over, shell: Some(sh), ..s },
            finish_v(seq![], script(sh) + "\n"@),
        ),
        _ => (
            CompletionV { stage: CompletionStage::AwaitHome, shell: Some(sh), ..s },
            step_v(seq![], EffectV::HomeDir),
        ),
    }
}

/// Make the snippet's directory where it has one, or go on to write it.
pub open spec fn make_dir(s: CompletionV, sh: Shell, say: Seq<LineV>) -> (CompletionV, StepV) {
    match parent(s.path) {
        Some(p) => (
            CompletionV { stage: CompletionStage::AwaitMkdir, ..s },
            step_v(say, EffectV::CreateDirAll(p)),
        ),
        None => write_script(s, sh, say),
    }
}

/// Write the snippet: the whole fish file, or a line added to the end of a start-up file.
pub open spec fn write_script(s: CompletionV, sh: Shell, say: Seq<LineV>) -> (CompletionV, StepV) {
    if sh == Shell::Fish {
        (
            CompletionV { stage: CompletionStage::AwaitWrite, ..s },
            step_v(say, EffectV::WriteFile(s.path, fish_text())),
        )
    } else {
        (
            CompletionV { stage: CompletionStage::AwaitAppend, ..s },
            step_v(say, EffectV::AppendLine(s.path, script(sh), "Could not open "@ + s.path)),
        )
    }
}

/// What is printed once the snippet is written.
pub open spec fn added_lines(path: Seq<char>) -> Seq<LineV> {
    seq![
        line_v(""@, "Added jgit install to "@ + path, Tone::Plain),
        line_v(""@, "Run 'source "@ + path + "' now"@, Tone::Plain),
    ]
}

/// The run ends: print `text`.
pub open spec fn done_saying(s: CompletionV, text: Seq<char>) -> (CompletionV, StepV) {
    (
        CompletionV { stage: CompletionStage::Over, ..s },
        step_v(seq![line_v(""@, text, Tone::Plain)], EffectV::Finish),
    )
}

/// The run fails: print `text` and stop with exit code 1.
pub open spec fn fail_saying(s: CompletionV, say: Seq<LineV>) -> (CompletionV, StepV) {
    (CompletionV { stage: CompletionStage::Over, ..s }, step_v(say, EffectV::Exit(1)))
}

/// One step of `jgit autocomplete`.
pub open spec fn completion_next(s: CompletionV, e: EventV) -> (CompletionV, StepV) {
    match s.stage {
        CompletionStage::Begin => match s.shell {
            Some(sh) => dispatch(s, sh),
            None => (
                CompletionV { stage: CompletionStage::AwaitShell, ..s },
                step_v(seq![], EffectV::ShellVar),
            ),
        },
        CompletionStage::AwaitShell => match e {
            EventV::Place(Ok(v)) => match shell_named(v) {
                Ok(sh) => dispatch(s, sh),
                Err(name) => fail_saying(
                    s,
                    seq![line_v(""@, "Unsupported shell: "@ + name, Tone::Plain)],
                ),
            },
            EventV::Place(Err(m)) => (
                CompletionV { stage: CompletionStage::Over, ..s },
                step_v(seq![], EffectV::Panic("SHELL environment variable is not set: "@ + m)),
            ),
            _ => completion_over(s),
        },
        CompletionStage::AwaitHome => match (e, s.shell) {
            (EventV::Place(Ok(home)), Some(sh)) => {
                let path = join(home, home_file(sh));
                let t = CompletionV { path: path, ..s };
                if sh == Shell::Fish {
                    if s.operation == Operation::Install {
                        make_dir(t, sh, seq![])
                    } else {
                        (
                            CompletionV { stage: CompletionStage::AwaitExists, ..t },
                            step_v(seq![], EffectV::PathExists(path)),
                        )
                    }
                } else {
                    (
                        CompletionV { stage: CompletionStage::AwaitRead, ..t },
                        step_v(seq![], EffectV::ReadFile(path)),
                    )
                }
            },
            (EventV::Place(Err(_)), Some(_)) => (
                CompletionV { stage: CompletionStage::Over, ..s },
                step_v(seq![], EffectV::Panic("Unknown home directory"@)),
            ),
            _ => completion_over(s),
        },
        CompletionStage::AwaitRead => match (e, s.shell) {
            (EventV::Place(r), Some(sh)) => if s.operation == Operation::Install {
                match r {
                    Ok(f) => if contains(f, script(sh)) {
                        done_saying(s, "Already installed in "@ + s.path)
                    } else {
                        make_dir(s, sh, seq![])
                    },
                    Err(_) => make_dir(s, sh, seq![]),
                }
            } else {
                match r {
                    Ok(f) => {
                        let kept = remove_all(f, script(sh));
                        if kept != f {
                            (
                                CompletionV { stage: CompletionStage::AwaitWrite, ..s },
                                step_v(seq![], EffectV::WriteFile(s.path, kept)),
                            )
                        } else {
                            done_saying(s, "Already uninstalled from "@ + s.path)
                        }
                    },
                    Err(_) => done_saying(
                        s,
                        "Already uninstalled from "@ + s.path + " (does not exist)"@,
                    ),
                }
            },
            _ => completion_over(s),
        },
        CompletionStage::AwaitMkdir => match (e, s.shell) {
            (EventV::Done(Ok(())), Some(sh)) => write_script(s, sh, seq![]),
            (EventV::Done(Err(m)), Some(_)) => fail_saying(s, seq![line_v(""@, m, Tone::Plain)]),
            _ => completion_over(s),
        },
        CompletionStage::AwaitWrite => match e {
            EventV::Done(Ok(())) => if s.operation == Operation::Install {
                (
                    CompletionV { stage: CompletionStage::Over, ..s },
                    step_v(added_lines(s.path), EffectV::Finish),
                )
            } else {
                done_saying(s, "Uninstalled jgit from "@ + s.path)
            },
            EventV::Done(Err(m)) => if s.operation == Operation::Install {
                fail_saying(s, seq![line_v(""@, m, Tone::Plain)])
            } else {
                fail_saying(s, seq![line_v(""@, m, Tone::Plain), line_v(""@, ""@, Tone::Plain)])
            },
            _ => completion_over(s),
        },
        CompletionStage::AwaitAppend => match e {
            EventV::Done(Ok(())) => (
                CompletionV { stage: CompletionStage::Over, ..s },
                step_v(added_lines(s.path), EffectV::Finish),
            ),
            EventV::Done(Err(m)) => fail_saying(s, seq![line_v(""@, m, Tone::Plain)]),
            _ => completion_over(s),
        },
        CompletionStage::AwaitExists => match e {
            EventV::Flag(true) => (
                CompletionV { stage: CompletionStage::AwaitRemove, ..s },
                step_v(seq![], EffectV::RemoveFile(s.path)),
            ),
            EventV::Flag(false) => done_saying(
                s,
                "Already uninstalled from "@ + s.path + " (does not exist)"@,
            ),
            _ => completion_over(s),
        },
        CompletionStage::AwaitRemove => match e {
            EventV::Done(Ok(())) => done_saying(s, "Uninstalled jgit from "@ + s.path),
            EventV::Done(Err(m)) => fail_saying(s, seq![line_v(""@, m, Tone::Plain)]),
            _ => completion_over(s),
        },
        CompletionStage::Over => completion_over(s),
    }
}


// ---------------------------------------------------------------- exec

/// The snippet for a shell.
pub fn script_for(sh: Shell) -> (s: &'static str)
    ensures
        s@ == script(sh),
{
    match sh {
        Shell::Bash => bash_script(),
        Shell::Zsh => zsh_script(),
        Shell::Fish => fish_script(),
    }
}

fn home_file_for(sh: Shell) -> (s: &'static str)
    ensures
        s@ == home_file(sh),
{
    match sh {
        Shell::Bash => ".bashrc",
        Shell::Zsh => ".zshrc",
        Shell::Fish => ".config/fish/conf.d/jgit.fish",
    }
}

impl AutocompleteCommand {
    /// The shell that a `SHELL` value names, or the name that is not supported.
    pub fn get_current_shell(shell_path: &str) -> (r: Result<Shell, String>)
        ensures
            match r {
                Ok(sh) => shell_named(shell_path@) == Ok::<Shell, Seq<char>>(sh),
                Err(name) => shell_named(shell_path@) == Err::<Shell, Seq<char>>(name@),
            },
    {
        let v = chars_of(shell_path);
        let start = match last_index_in(&v, 0, v.len(), '/') {
            Some(i) => i + 1,
            None => 0,
        };
        proof {
            assert(v@.subrange(0, v@.len() as int) =~= v@);
        }
        let name = slice_string(shell_path, &v, start, v.len());
        proof {
            assert(after_last(shell_path@, '/') =~= name@);
        }
        if name == String::from_str("bash") {
            Ok(Shell::Bash)
        } else if name == String::from_str("fish") {
            Ok(Shell::Fish)
        } else if name == String::from_str("zsh") {
            Ok(Shell::Zsh)
        } else {
            Err(name)
        }
    }

    /// A run of this command that has not begun.
    pub fn start(&self) -> (r: CompletionRun)
        ensures
            r@ == completion_start(*self),
    {
        CompletionRun {
            operation: self.operation,
            shell: self.shell,
            stage: CompletionStage::Begin,
            path: String::new(),
        }
    }
}

impl CompletionRun {
    fn over(&mut self) -> (out: Step)
        ensures
            (final(self)@, out@) == completion_over(old(self)@),
    {
        self.stage = CompletionStage::Over;
        quiet(Effect::Finish)
    }

    fn dispatch(&mut self, sh: Shell) -> (out: Step)
        ensures
            (final(self)@, out@) == dispatch(old(self)@, sh),
    {
        self.shell = Some(sh);
        match self.operation {
            Operation::Generate => {
                self.stage = CompletionStage::Over;
                finish(no_lines(), concat2(script_for(sh), "\n"))
            },
            _ => {
                self.stage = CompletionStage::AwaitHome;
                quiet(Effect::HomeDir)
            },
        }
    }

    fn write_script(&mut self, sh: Shell, say: Vec<Line>) -> (out: Step)
        ensures
            (final(self)@, out@) == write_script(old(self)@, sh, lines_view(say@)),
    {
        if sh == Shell::Fish {
            self.stage = CompletionStage::AwaitWrite;
            step(
                say,
                Effect::WriteFile { path: self.path.clone(), content: String::from_str(fish_script()) },
            )
        } else {
            self.stage = CompletionStage::AwaitAppend;
            step(
                say,
                Effect::AppendLine {
                    path: self.path.clone(),
                    content: String::from_str(script_for(sh)),
                    open_failure: concat2("Could not open ", self.path.as_str()),
                },
            )
        }
    }

    fn make_dir(&mut self, sh: Shell, say: Vec<Line>) -> (out: Step)
        ensures
            (final(self)@, out@) == make_dir(old(self)@, sh, lines_view(say@)),
    {
        match parent_of(self.path.as_str()) {
            Some(p) => {
                self.stage = CompletionStage::AwaitMkdir;
                step(say, Effect::CreateDirAll { path: p })
            },
            None => self.write_script(sh, say),
        }
    }

    fn done_saying(&mut self, text: String) -> (out: Step)
        ensures
            (final(self)@, out@) == done_saying(old(self)@, text@),
    {
        self.stage = CompletionStage::Over;
        step(single(line("", text, Tone::Plain)), Effect::Finish)
    }

    fn fail_saying(&mut self, say: Vec<Line>) -> (out: Step)
        ensures
            (final(self)@, out@) == fail_saying(old(self)@, lines_view(say@)),
    {
        self.stage = CompletionStage::Over;
        step(say, Effect::Exit { code: 1 })
    }

    fn added(&self) -> (r: Vec<Line>)
        ensures
            lines_view(r@) == added_lines(self.path@),
    {
        let a = concat2("Added jgit install to ", self.path.as_str());
        let b = concat3("Run 'source ", self.path.as_str(), "' now");
        let r = joined(single(line("", a, Tone::Plain)), single(line("", b, Tone::Plain)));
        proof {
            assert(lines_view(r@) =~= added_lines(self.path@));
        }
        r
    }

    fn on_begin(&mut self, e: Event) -> (out: Step)
        requires
            old(self).stage == CompletionStage::Begin,
        ensures
            (final(self)@, out@) == completion_next(old(self)@, e@),
    {
        match self.shell {
            Some(sh) => self.dispatch(sh),
            None => {
                self.stage = CompletionStage::AwaitShell;
                quiet(Effect::ShellVar)
            },
        }
    }

    fn on_shell(&mut self, e: Event) -> (out: Step)
        requires
            old(self).stage == CompletionStage::AwaitShell,
        ensures
            (final(self)@, out@) == completion_next(old(self)@, e@),
    {
        match e {
            Event::Place(Ok(v)) => match AutocompleteCommand::get_current_shell(v.as_str()) {
                Ok(sh) => self.dispatch(sh),
                Err(name) => {
                    let m = concat2("Unsupported shell: ", name.as_str());
                    self.fail_saying(single(line("", m, Tone::Plain)))
                },
            },
            Event::Place(Err(m)) => {
                let message = concat2("SHELL environment variable is not set: ", m.as_str());
                self.stage = CompletionStage::Over;
                quiet(Effect::Panic { message })
            },
            _ => self.over(),
        }
    }

    fn on_home(&mut self, e: Event) -> (out: Step)
        requires
            old(self).stage == CompletionStage::AwaitHome,
        ensures
            (final(self)@, out@) == completion_next(old(self)@, e@),
    {
        match (e, self.shell) {
            (Event::Place(Ok(home)), Some(sh)) => {
                let path = join_of(home.as_str(), home_file_for(sh));
                self.path = path.clone();
                if sh == Shell::Fish {
                    if self.operation == Operation::Install {
                        self.make_dir(sh, no_lines())
                    } else {
                        self.stage = CompletionStage::AwaitExists;
                        quiet(Effect::PathExists { path })
                    }
                } else {
                    self.stage = CompletionStage::AwaitRead;
                    quiet(Effect::ReadFile { path })
                }
            },
            (Event::Place(Err(_)), Some(_)) => {
                self.stage = CompletionStage::Over;
                quiet(Effect::Panic { message: String::from_str("Unknown home directory") })
            },
            _ => self.over(),
        }
    }

    fn on_read(&mut self, e: Event) -> (out: Step)
        requires
            old(self).stage == CompletionStage::AwaitRead,
        ensures
            (final(self)@, out@) == completion_next(old(self)@, e@),
    {
        match (e, self.shell) {
            (Event::Place(r), Some(sh)) => if self.operation == Operation::Install {
                match r {
                    Ok(f) => if contains_str(f.as_str(), script_for(sh)) {
                        let m = concat2("Already installed in ", self.path.as_str());
                        self.done_saying(m)
                    } else {
                        self.make_dir(sh, no_lines())
                    },
                    Err(_) => self.make_dir(sh, no_lines()),
                }
            } else {
                match r {
                    Ok(f) => {
                        let kept = remove_all_of(f.as_str(), script_for(sh));
                        if !(kept == f) {
                            self.stage = CompletionStage::AwaitWrite;
                            quiet(Effect::WriteFile { path: self.path.clone(), content: kept })
                        } else {
                            let m = concat2("Already uninstalled from ", self.path.as_str());
                            self.done_saying(m)
                        }
                    },
                    Err(_) => {
                        let m = concat3(
                            "Already uninstalled from ",
                            self.path.as_str(),
                            " (does not exist)",
                        );
                        self.done_saying(m)
                    },
                }
            },
            _ => self.over(),
        }
    }

    fn on_mkdir(&mut self, e: Event) -> (out: Step)
        requires
            old(self).stage == CompletionStage::AwaitMkdir,
        ensures
            (final(self)@, out@) == completion_next(old(self)@, e@),
    {
        match (e, self.shell) {
            (Event::Done(Ok(())), Some(sh)) => self.write_script(sh, no_lines()),
            (Event::Done(Err(m)), Some(_)) => self.fail_saying(single(line("", m, Tone::Plain))),
            _ => self.over(),
        }
    }

    fn on_write(&mut self, e: Event) -> (out: Step)
        requires
            old(self).stage == CompletionStage::AwaitWrite,
        ensures
            (final(self)@, out@) == completion_next(old(self)@, e@),
    {
        match e {
            Event::Done(Ok(())) => if self.operation == Operation::Install {
                let say = self.added();
                self.stage = CompletionStage::Over;
                step(say, Effect::Finish)
            } else {
                let m = concat2("Uninstalled jgit from ", self.path.as_str());
                self.done_saying(m)
            },
            Event::Done(Err(m)) => if self.operation == Operation::Install {
                self.fail_saying(single(line("", m, Tone::Plain)))
            } else {
                let ghost mv = m@;
                let say = joined(
                    single(line("", m, Tone::Plain)),
                    single(fixed_line("", "", Tone::Plain)),
                );
                assert(lines_view(say@) =~= seq![
                    line_v(""@, mv, Tone::Plain),
                    line_v(""@, ""@, Tone::Plain),
                ]);
                self.fail_saying(say)
            },
            _ => self.over(),
        }
    }

    fn on_append(&mut self, e: Event) -> (out: Step)
        requires
            old(self).stage == CompletionStage::AwaitAppend,
        ensures
            (final(self)@, out@) == completion_next(old(self)@, e@),
    {
        match e {
            Event::Done(Ok(())) => {
                let say = self.added();
                self.stage = CompletionStage::Over;
                step(say, Effect::Finish)
            },
            Event::Done(Err(m)) => self.fail_saying(single(line("", m, Tone::Plain))),
            _ => self.over(),
        }
    }

    fn on_exists(&mut self, e: Event) -> (out: Step)
        requires
            old(self).stage == CompletionStage::AwaitExists,
        ensures
            (final(self)@, out@) == completion_next(old(self)@, e@),
    {
        match e {
            Event::Flag(true) => {
                self.stage = CompletionStage::AwaitRemove;
                quiet(Effect::RemoveFile { path: self.path.clone() })
            },
            Event::Flag(false) => {
                let m = concat3("Already uninstalled from ", self.path.as_str(), " (does not exist)");
                self.done_saying(m)
            },
            _ => self.over(),
        }
    }

    fn on_remove(&mut self, e: Event) -> (out: Step)
        requires
            old(self).stage == CompletionStage::AwaitRemove,
        ensures
            (final(self)@, out@) == completion_next(old(self)@, e@),
    {
        match e {
            Event::Done(Ok(())) => {
                let m = concat2("Uninstalled jgit from ", self.path.as_str());
                self.done_saying(m)
            },
            Event::Done(Err(m)) => self.fail_saying(single(line("", m, Tone::Plain))),
            _ => self.over(),
        }
    }

    /// Takes what the last effect gave back and says what to do next.
    pub fn step(&mut self, e: Event) -> (out: Step)
        ensures
            (final(self)@, out@) == completion_next(old(self)@, e@),
    {
        match self.stage {
            CompletionStage::Begin => self.on_begin(e),
            CompletionStage::AwaitShell => self.on_shell(e),
            CompletionStage::AwaitHome => self.on_home(e),
            CompletionStage::AwaitRead => self.on_read(e),
            CompletionStage::AwaitMkdir => self.on_mkdir(e),
            CompletionStage::AwaitWrite => self.on_write(e),
            CompletionStage::AwaitAppend => self.on_append(e),
            CompletionStage::AwaitExists => self.on_exists(e),
            CompletionStage::AwaitRemove => self.on_remove(e),
            CompletionStage::Over => self.over(),
        }
    }
}

// ---------------------------------------------------------------- laws

/// The bash and zsh snippets are longer than one character and border free.
proof fn lemma_snippet_border_free(sh: Shell)
    requires
        sh != Shell::Fish,
    ensures
        script(sh).len() > 1,
        border_free(script(sh)),
{
    reveal_with_fuel(only_at, 80);
    if sh == Shell::Bash {
        reveal_strlit("#> Added by jgit install (~/.bashrc)\nsource <(COMPLETE=bash jgit)\n#< end");
        lemma_border_free_by_first(script(sh), 66);
    } else {
        reveal_strlit("#> Added by jgit install (~/.zshrc)\nsource <(COMPLETE=zsh jgit)\n#< end");
        lemma_border_free_by_first(script(sh), 64);
    }
}

/// Installing is idempotent: once a start-up file `f` has had the snippet and
/// a line feed appended to it, as an install does, another install finds the
/// snippet there, says so and writes nothing.
pub proof fn law_install_is_idempotent(s: CompletionV, sh: Shell, f: Seq<char>)
    requires
        s.stage == CompletionStage::AwaitRead,
        s.operation == Operation::Install,
        s.shell == Some(sh),
    ensures
        completion_next(s, EventV::Place(Ok(f + script(sh) + seq!['\n'])))
            == done_saying(s, "Already installed in "@ + s.path),
{
    lemma_contains_appended(f, script(sh), seq!['\n']);
}

/// Uninstalling takes back what installing added: where a start-up file `f`
/// did not hold the snippet, an install appends the snippet and a line feed,
/// and an uninstall then writes back `f` followed by that line feed.
pub proof fn law_uninstall_undoes_install(s: CompletionV, sh: Shell, f: Seq<char>)
    requires
        s.stage == CompletionStage::AwaitRead,
        s.operation == Operation::Uninstall,
        s.shell == Some(sh),
        sh != Shell::Fish,
        !contains(f, script(sh)),
    ensures
        completion_next(s, EventV::Place(Ok(f + script(sh) + seq!['\n']))) == (
            CompletionV { stage: CompletionStage::AwaitWrite, ..s },
            step_v(seq![], EffectV::WriteFile(s.path, f + seq!['\n'])),
        ),
{
    lemma_snippet_border_free(sh);
    lemma_remove_appended_line(f, script(sh));
    let g = f + script(sh) + seq!['\n'];
    assert(remove_all(g, script(sh)).len() != g.len());
}

/// An install run from a start-up file `f` that does not hold the snippet
/// makes the file's directory, where it has one, and then appends exactly the
/// snippet to the file.
pub proof fn law_install_appends_snippet(s: CompletionV, sh: Shell, f: Seq<char>)
    requires
        s.stage == CompletionStage::AwaitRead,
        s.operation == Operation::Install,
        s.shell == Some(sh),
        sh != Shell::Fish,
        !contains(f, script(sh)),
    ensures
        ({
            let (t, out) = completion_next(s, EventV::Place(Ok(f)));
            match parent(s.path) {
                Some(p) => t.stage == CompletionStage::AwaitMkdir
                    && out.next == EffectV::CreateDirAll(p)
                    && completion_next(t, EventV::Done(Ok(()))).1.next == EffectV::AppendLine(
                        s.path,
                        script(sh),
                        "Could not open "@ + s.path,
                    ),
                None => out.next == EffectV::AppendLine(s.path, script(sh), "Could not open "@ + s.path),
            }
        }),
{
}

/// Law: an install whose start-up file cannot be read, as when it does not
/// exist yet, is not taken as installed: it makes the file's directory, where
/// it has one, and then appends exactly the snippet to the file, which is
/// created where it is missing.
pub proof fn law_install_creates_missing_file(s: CompletionV, sh: Shell, m: Seq<char>)
    requires
        s.stage == CompletionStage::AwaitRead,
        s.operation == Operation::Install,
        s.shell == Some(sh),
        sh != Shell::Fish,
    ensures
        ({
            let (t, out) = completion_next(s, EventV::Place(Err(m)));
            &&& t.stage != CompletionStage::Over
            &&& out.say.len() == 0
            &&& match parent(s.path) {
                Some(p) => t.stage == CompletionStage::AwaitMkdir
                    && out.next == EffectV::CreateDirAll(p)
                    && completion_next(t, EventV::Done(Ok(()))).1.next == EffectV::AppendLine(
                        s.path,
                        script(sh),
                        "Could not open "@ + s.path,
                    ),
                None => out.next == EffectV::AppendLine(s.path, script(sh), "Could not open "@ + s.path),
            }
        }),
{
}

/// Law: generating prints the shell's snippet and a line feed, and does
/// nothing else.
pub proof fn law_generate_prints_snippet(s: CompletionV, sh: Shell)
    requires
        s.stage == CompletionStage::Begin,
        s.operation == Operation::Generate,
        s.shell == Some(sh),
    ensures
        ({
            let (t, out) = completion_next(s, EventV::Start);
            &&& out.show == script(sh) + "\n"@
            &&& out.say.len() == 0
            &&& out.next == EffectV::Finish
            &&& t.stage == CompletionStage::Over
        }),
{
}

/// Law: uninstalling from a start-up file that does not hold the snippet
/// writes nothing and says it is already uninstalled.
pub proof fn law_uninstall_leaves_file_without_snippet(s: CompletionV, sh: Shell, f: Seq<char>)
    requires
        s.stage == CompletionStage::AwaitRead,
        s.operation == Operation::Uninstall,
        s.shell == Some(sh),
        sh != Shell::Fish,
        !contains(f, script(sh)),
    ensures
        ({
            let (t, out) = completion_next(s, EventV::Place(Ok(f)));
            &&& out.next == EffectV::Finish
            &&& out.say == seq![line_v(""@, "Already uninstalled from "@ + s.path, Tone::Plain)]
        }),
{
    lemma_snippet_border_free(sh);
    lemma_remove_all_absent(f, script(sh));
}

} // verus!

