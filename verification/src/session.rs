//! The exchange between a command and the world around it.  A command is a
//! state machine: each step takes what the last effect gave back (an
//! [`Event`]) and answers with a [`Step`]: lines to print on standard error,
//! text to print on standard output, and the next effect to perform.
use vstd::prelude::*;
use crate::git::GitResult;
use crate::text::views;

verus! {

/// How a line is coloured.
#[derive(Clone, Copy, Debug, PartialEq, Eq, Structural)]
pub enum Tone {
    Plain,
    Red,
    Yellow,
    YellowBold,
    Green,
    GreenBold,
    Cyan,
    Dimmed,
}

/// A line for standard error: `lead` as it is, followed by `text` in `tone`.
pub struct Line {
    pub lead: String,
    pub text: String,
    pub tone: Tone,
}

/// What the world is asked to do next.
pub enum Effect {
    /// Find the current directory; answered by `Event::Place`.
    CurrentDir,
    /// Whether a path exists; answered by `Event::Flag`.
    PathExists { path: String },
    /// Run git in `cwd`; answered by `Event::Git`.  Where `must_succeed` holds
    /// and git fails, the program ends there with git's exit code.
    Git { cwd: String, args: Vec<String>, must_succeed: bool },
    /// Print `prompt` in `tone` and read a line of input; answered by `Event::Answer`.
    Ask { prompt: String, tone: Tone },
    /// Create a directory and its parents; answered by `Event::Done`.
    CreateDirAll { path: String },
    /// Write a file; answered by `Event::Done`.
    WriteFile { path: String, content: String },
    /// Remove an empty directory; answered by `Event::Done`.
    RemoveDir { path: String },
    /// List a directory; answered by `Event::Entries`.
    ReadDir { path: String },
    /// Resolve a path to its canonical absolute form; answered by `Event::Place`.
    Canonicalize { path: String },
    /// Read the `SHELL` environment variable; answered by `Event::Place`.
    ShellVar,
    /// Find the home directory; answered by `Event::Place`.
    HomeDir,
    /// Read a file as text; answered by `Event::Place`.
    ReadFile { path: String },
    /// Open a file for appending, creating it where it is missing, and write
    /// `content` and a line feed to it; answered by `Event::Done`.  Where the
    /// file cannot be opened, the program panics with `open_failure`.
    AppendLine { path: String, content: String, open_failure: String },
    /// Remove a file; answered by `Event::Done`.
    RemoveFile { path: String },
    /// Stop the program with a panic carrying `message`.
    Panic { message: String },
    /// Stop the program with this exit code.
    Exit { code: i32 },
    /// The command is done.
    Finish,
}

/// One step of a command.
pub struct Step {
    pub say: Vec<Line>,
    pub show: String,
    pub next: Effect,
}

/// One entry of a directory listing.
pub struct Entry {
    pub name: String,
    pub is_dir: bool,
}

/// What the last effect gave back.
pub enum Event {
    Start,
    Place(Result<String, String>),
    Flag(bool),
    Git(GitResult),
    Answer(String),
    Done(Result<(), String>),
    Entries(Vec<Entry>),
}

// ---------------------------------------------------------------- views

pub struct LineV {
    pub lead: Seq<char>,
    pub text: Seq<char>,
    pub tone: Tone,
}

pub enum EffectV {
    CurrentDir,
    PathExists(Seq<char>),
    Git(Seq<char>, Seq<Seq<char>>, bool),
    Ask(Seq<char>, Tone),
    CreateDirAll(Seq<char>),
    WriteFile(Seq<char>, Seq<char>),
    RemoveDir(Seq<char>),
    ReadDir(Seq<char>),
    Canonicalize(Seq<char>),
    ShellVar,
    HomeDir,
    ReadFile(Seq<char>),
    AppendLine(Seq<char>, Seq<char>, Seq<char>),
    RemoveFile(Seq<char>),
    Panic(Seq<char>),
    Exit(i32),
    Finish,
}

pub struct StepV {
    pub say: Seq<LineV>,
    pub show: Seq<char>,
    pub next: EffectV,
}

pub struct GitResultV {
    pub rc: i32,
    pub stderr: Seq<char>,
    pub stdout: Seq<char>,
    pub command: Seq<char>,
}

pub enum EventV {
    Start,
    Place(Result<Seq<char>, Seq<char>>),
    Flag(bool),
    Git(GitResultV),
    Answer(Seq<char>),
    Done(Result<(), Seq<char>>),
    Entries(Seq<(Seq<char>, bool)>),
}

impl View for Line {
    type V = LineV;

    open spec fn view(&self) -> LineV {
        LineV { lead: self.lead@, text: self.text@, tone: self.tone }
    }
}

pub open spec fn lines_view(v: Seq<Line>) -> Seq<LineV> {
    v.map_values(|l: Line| l@)
}

impl View for Effect {
    type V = EffectV;

    open spec fn view(&self) -> EffectV {
        match self {
            Effect::CurrentDir => EffectV::CurrentDir,
            Effect::PathExists { path } => EffectV::PathExists(path@),
            Effect::Git { cwd, args, must_succeed } => EffectV::Git(
                cwd@,
                views(args@),
                *must_succeed,
            ),
            Effect::Ask { prompt, tone } => EffectV::Ask(prompt@, *tone),
            Effect::CreateDirAll { path } => EffectV::CreateDirAll(path@),
            Effect::WriteFile { path, content } => EffectV::WriteFile(path@, content@),
            Effect::RemoveDir { path } => EffectV::RemoveDir(path@),
            Effect::ReadDir { path } => EffectV::ReadDir(path@),
            Effect::Canonicalize { path } => EffectV::Canonicalize(path@),
            Effect::ShellVar => EffectV::ShellVar,
            Effect::HomeDir => EffectV::HomeDir,
            Effect::ReadFile { path } => EffectV::ReadFile(path@),
            Effect::AppendLine { path, content, open_failure } => EffectV::AppendLine(
                path@,
                content@,
                open_failure@,
            ),
            Effect::RemoveFile { path } => EffectV::RemoveFile(path@),
            Effect::Panic { message } => EffectV::Panic(message@),
            Effect::Exit { code } => EffectV::Exit(*code),
            Effect::Finish => EffectV::Finish,
        }
    }
}

impl View for Step {
    type V = StepV;

    open spec fn view(&self) -> StepV {
        StepV { say: lines_view(self.say@), show: self.show@, next: self.next@ }
    }
}

impl View for GitResult {
    type V = GitResultV;

    open spec fn view(&self) -> GitResultV {
        GitResultV {
            rc: self.rc,
            stderr: self.stderr@,
            stdout: self.stdout@,
            command: self.command@,
        }
    }
}

impl View for Event {
    type V = EventV;

    open spec fn view(&self) -> EventV {
        match self {
            Event::Start => EventV::Start,
            Event::Place(r) => EventV::Place(
                match r {
                    Ok(p) => Ok(p@),
                    Err(e) => Err(e@),
                },
            ),
            Event::Flag(b) => EventV::Flag(*b),
            Event::Git(r) => EventV::Git(r@),
            Event::Answer(a) => EventV::Answer(a@),
            Event::Done(r) => EventV::Done(
                match r {
                    Ok(()) => Ok(()),
                    Err(e) => Err(e@),
                },
            ),
            Event::Entries(es) => EventV::Entries(
                es@.map_values(|e: Entry| (e.name@, e.is_dir)),
            ),
        }
    }
}

// ---------------------------------------------------------------- building steps

pub open spec fn line_v(lead: Seq<char>, text: Seq<char>, tone: Tone) -> LineV {
    LineV { lead, text, tone }
}

/// A step that prints `say` and performs `next` after that.
pub open spec fn step_v(say: Seq<LineV>, next: EffectV) -> StepV {
    StepV { say, show: seq![], next }
}

/// A step that prints `show` on standard output and ends the command.
pub open spec fn finish_v(say: Seq<LineV>, show: Seq<char>) -> StepV {
    StepV { say, show, next: EffectV::Finish }
}

/// A step that prints `show` on standard output and ends the command.
pub fn finish(say: Vec<Line>, show: String) -> (s: Step)
    ensures
        s@ == finish_v(lines_view(say@), show@),
{
    Step { say, show, next: Effect::Finish }
}

/// A line for standard error.
pub fn line(lead: &str, text: String, tone: Tone) -> (l: Line)
    ensures
        l@ == line_v(lead@, text@, tone),
{
    Line { lead: String::from_str(lead), text, tone }
}

/// A line with a fixed text.
pub fn fixed_line(lead: &str, text: &str, tone: Tone) -> (l: Line)
    ensures
        l@ == line_v(lead@, text@, tone),
{
    Line { lead: String::from_str(lead), text: String::from_str(text), tone }
}

/// A step that prints `say` and performs `next` after that.
pub fn step(say: Vec<Line>, next: Effect) -> (s: Step)
    ensures
        s@ == step_v(lines_view(say@), next@),
{
    let s = Step { say, show: String::new(), next };
    proof {
        assert(s@.show =~= Seq::<char>::empty());
    }
    s
}

/// A step that performs `next` and prints nothing.
pub fn quiet(next: Effect) -> (s: Step)
    ensures
        s@ == step_v(seq![], next@),
{
    let s = Step { say: Vec::new(), show: String::new(), next };
    proof {
        assert(s@.say =~= Seq::<LineV>::empty());
        assert(s@.show =~= Seq::<char>::empty());
    }
    s
}

/// The arguments `[a]`.
pub fn args1(a: &str) -> (v: Vec<String>)
    ensures
        views(v@) == seq![a@],
{
    let mut v: Vec<String> = Vec::new();
    v.push(String::from_str(a));
    proof {
        assert(views(v@) =~= seq![a@]);
    }
    v
}

/// The arguments `[a, b]`.
pub fn args2(a: &str, b: &str) -> (v: Vec<String>)
    ensures
        views(v@) == seq![a@, b@],
{
    let mut v = args1(a);
    let ghost before = views(v@);
    let x = String::from_str(b);
    v.push(x);
    proof {
        assert(views(v@) =~= before.push(x@));
        assert(views(v@) =~= seq![a@, b@]);
    }
    v
}

/// The arguments `[a, b, c]`.
pub fn args3(a: &str, b: &str, c: &str) -> (v: Vec<String>)
    ensures
        views(v@) == seq![a@, b@, c@],
{
    let mut v = args2(a, b);
    let ghost before = views(v@);
    let x = String::from_str(c);
    v.push(x);
    proof {
        assert(views(v@) =~= before.push(x@));
        assert(views(v@) =~= seq![a@, b@, c@]);
    }
    v
}

/// The arguments `[a, b, c, d]`.
pub fn args4(a: &str, b: &str, c: &str, d: &str) -> (v: Vec<String>)
    ensures
        views(v@) == seq![a@, b@, c@, d@],
{
    let mut v = args3(a, b, c);
    let ghost before = views(v@);
    let x = String::from_str(d);
    v.push(x);
    proof {
        assert(views(v@) =~= before.push(x@));
        assert(views(v@) =~= seq![a@, b@, c@, d@]);
    }
    v
}

/// A run of git in `cwd` with the given arguments.
pub fn run_git(cwd: &String, args: Vec<String>, must_succeed: bool) -> (e: Effect)
    ensures
        e@ == EffectV::Git(cwd@, views(args@), must_succeed),
{
    Effect::Git { cwd: cwd.clone(), args, must_succeed }
}

/// `a` followed by `b`.
pub fn joined(a: Vec<Line>, b: Vec<Line>) -> (r: Vec<Line>)
    ensures
        lines_view(r@) == lines_view(a@) + lines_view(b@),
{
    let mut a = a;
    let mut b = b;
    let ghost va = a@;
    let ghost vb = b@;
    a.append(&mut b);
    proof {
        assert(a@ == va + vb);
        assert(lines_view(a@) =~= lines_view(va) + lines_view(vb));
    }
    a
}

/// One line.
pub fn single(l: Line) -> (r: Vec<Line>)
    ensures
        lines_view(r@) == seq![l@],
{
    let mut r: Vec<Line> = Vec::new();
    r.push(l);
    proof {
        assert(lines_view(r@) =~= seq![l@]);
    }
    r
}

/// No lines.
pub fn no_lines() -> (r: Vec<Line>)
    ensures
        lines_view(r@) == Seq::<LineV>::empty(),
{
    let r: Vec<Line> = Vec::new();
    proof {
        assert(lines_view(r@) =~= Seq::<LineV>::empty());
    }
    r
}

/// The text of `a` followed by `b`.
pub fn concat2(a: &str, b: &str) -> (r: String)
    ensures
        r@ == a@ + b@,
{
    let mut r = String::from_str(a);
    r.append(b);
    r
}

/// The text of `a`, `b` and `c` in a row.
pub fn concat3(a: &str, b: &str, c: &str) -> (r: String)
    ensures
        r@ == a@ + b@ + c@,
{
    let mut r = String::from_str(a);
    r.append(b);
    r.append(c);
    r
}

} // verus!
