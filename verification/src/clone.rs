//! `jgit clone <url> [path]`: clone a repository bare into `<path>/.bare` and
//! point `<path>/.git` at it, so that branches can live in worktrees beside it.
use vstd::prelude::*;
use crate::paths::{join, join_of};
use crate::session::{
    args2, args3, args4, concat2, concat3, finish, finish_v, fixed_line, joined, line, line_v,
    lines_view, no_lines, quiet, run_git, single, step, step_v, Effect, EffectV, Event, EventV,
    GitResultV, Line, LineV, Step, StepV, Tone,
};
use crate::text::{
    after_last, chars_of, ends_with_in, has_suffix, last_index_in, lemma_last_index_of, slice_string,
};

verus! {

/// The options of `jgit clone`.
pub struct CloneCommand {
    /// The URL to clone.
    pub url: String,
    /// Where to make the repository.
    pub path: Option<String>,
}

/// `.git`
pub open spec fn dot_git() -> Seq<char> {
    seq!['.', 'g', 'i', 't']
}

/// Where `jgit clone` makes the repository: the path given, or the last piece
/// of the URL without its `.git` ending; an error where the URL is empty, the
/// path given is empty, or no name can be taken from the URL.
pub open spec fn clone_path(url: Seq<char>, path: Option<Seq<char>>) -> Result<Seq<char>, Seq<char>> {
    if url.len() == 0 {
        Err("Usage: clone <url> [path]"@)
    } else {
        match path {
            Some(p) => if p.len() == 0 {
                Err("Usage: clone <url> [path]"@)
            } else {
                Ok(p)
            },
            None => {
                let last = after_last(url, '/');
                if has_suffix(last, dot_git()) && last.len() > dot_git().len() {
                    Ok(last.take(last.len() - dot_git().len()))
                } else {
                    Err(
                        "Could not derive path from '"@ + url
                            + "'. Please pass a path explicitly."@,
                    )
                }
            },
        }
    }
}

/// Where a run of `jgit clone` stands.
#[derive(Clone, Copy, Debug, PartialEq, Eq, Structural)]
pub enum CloneStage {
    Begin,
    AwaitExists,
    AwaitMkdir,
    AwaitClone,
    AwaitGitFile,
    AwaitConfig,
    AwaitUserName,
    AwaitUserEmail,
    Over,
}

/// A run of `jgit clone`.
pub struct CloneRun {
    pub url: String,
    pub given: Option<String>,
    pub stage: CloneStage,
    /// Where the repository is made.
    pub path: String,
}

pub struct CloneV {
    pub url: Seq<char>,
    pub given: Option<Seq<char>>,
    pub stage: CloneStage,
    pub path: Seq<char>,
}

impl View for CloneRun {
    type V = CloneV;

    open spec fn view(&self) -> CloneV {
        CloneV {
            url: self.url@,
            given: match self.given {
                Some(p) => Some(p@),
                None => None,
            },
            stage: self.stage,
            path: self.path@,
        }
    }
}

/// A run that has not begun.
pub open spec fn clone_start(url: Seq<char>, given: Option<Seq<char>>) -> CloneV {
    CloneV { url, given, stage: CloneStage::Begin, path: seq![] }
}

/// The run stops, saying nothing.
pub open spec fn clone_over(s: CloneV) -> (CloneV, StepV) {
    (CloneV { stage: CloneStage::Over, ..s }, step_v(seq![], EffectV::Finish))
}

/// The warning for a git setting that is missing, and how to set it.
pub open spec fn config_warning(key: Seq<char>, example: Seq<char>) -> Seq<LineV> {
    seq![
        line_v(
            ""@,
            "WARNING! Git config doesn't know your "@ + key
                + ". You won't be able to commit unless you configure it."@,
            Tone::Plain,
        ),
        line_v(
            ""@,
            "  Set globally:       $ git config --global "@ + key + " '"@ + example + "'"@,
            Tone::Plain,
        ),
        line_v(
            ""@,
            "  For this repo only: $ cd '$path' && git config --local "@ + key + " '"@ + example
                + "'"@,
            Tone::Plain,
        ),
    ]
}

/// One step of `jgit clone`.
pub open spec fn clone_next(s: CloneV, e: EventV) -> (CloneV, StepV) {
    match s.stage {
        CloneStage::Begin => match clone_path(s.url, s.given) {
            Ok(p) => (
                CloneV { stage: CloneStage::AwaitExists, path: p, ..s },
                step_v(seq![], EffectV::PathExists(p)),
            ),
            Err(m) => (
                CloneV { stage: CloneStage::Over, ..s },
                step_v(seq![line_v(""@, m, Tone::Plain)], EffectV::Exit(1)),
            ),
        },
        CloneStage::AwaitExists => match e {
            EventV::Flag(true) => (
                CloneV { stage: CloneStage::Over, ..s },
                step_v(
                    seq![line_v(""@, "Path '"@ + s.path + "' already exists"@, Tone::Plain)],
                    EffectV::Exit(1),
                ),
            ),
            EventV::Flag(false) => (
                CloneV { stage: CloneStage::AwaitMkdir, ..s },
                step_v(
                    seq![
                        line_v(
                            ""@,
                            "Creating folder to hold jgit worktree repository at: "@ + s.path,
                            Tone::Plain,
                        ),
                    ],
                    EffectV::CreateDirAll(s.path),
                ),
            ),
            _ => clone_over(s),
        },
        CloneStage::AwaitMkdir => match e {
            EventV::Done(Ok(())) => (
                CloneV { stage: CloneStage::AwaitClone, ..s },
                step_v(
                    seq![],
                    EffectV::Git(s.path, seq!["clone"@, "--bare"@, s.url, ".bare"@], true),
                ),
            ),
            EventV::Done(Err(m)) => (
                CloneV { stage: CloneStage::Over, ..s },
                step_v(
                    seq![line_v(""@, "Could not create '"@ + s.path + "': "@ + m, Tone::Plain)],
                    EffectV::Exit(1),
                ),
            ),
            _ => clone_over(s),
        },
        CloneStage::AwaitClone => match e {
            EventV::Git(_) => (
                CloneV { stage: CloneStage::AwaitGitFile, ..s },
                step_v(seq![], EffectV::WriteFile(join(s.path, ".git"@), "gitdir: .bare\n"@)),
            ),
            _ => clone_over(s),
        },
        CloneStage::AwaitGitFile => match e {
            EventV::Done(Ok(())) => (
                CloneV { stage: CloneStage::AwaitConfig, ..s },
                step_v(
                    seq![],
                    EffectV::Git(
                        s.path,
                        seq![
                            "config"@,
                            "remote.origin.fetch"@,
                            "+refs/heads/*:refs/remotes/origin/*"@,
                        ],
                        true,
                    ),
                ),
            ),
            EventV::Done(Err(m)) => (
                CloneV { stage: CloneStage::Over, ..s },
                step_v(
                    seq![
                        line_v(
                            ""@,
                            "Could not create '"@ + join(s.path, ".git"@) + "': "@ + m,
                            Tone::Plain,
                        ),
                    ],
                    EffectV::Exit(1),
                ),
            ),
            _ => clone_over(s),
        },
        CloneStage::AwaitConfig => match e {
            EventV::Git(_) => (
                CloneV { stage: CloneStage::AwaitUserName, ..s },
                step_v(
                    seq![line_v(""@, "\x1b[38;5;208m"@, Tone::Plain)],
                    EffectV::Git(s.path, seq!["config"@, "--get"@, "user.name"@], false),
                ),
            ),
            _ => clone_over(s),
        },
        CloneStage::AwaitUserName => match e {
            EventV::Git(r) => (
                CloneV { stage: CloneStage::AwaitUserEmail, ..s },
                step_v(
                    if r.rc != 0 {
                        config_warning("user.name"@, "Your Name"@)
                    } else {
                        seq![]
                    },
                    EffectV::Git(s.path, seq!["config"@, "--get"@, "user.email"@], false),
                ),
            ),
            _ => clone_over(s),
        },
        CloneStage::AwaitUserEmail => match e {
            EventV::Git(r) => (
                CloneV { stage: CloneStage::Over, ..s },
                finish_v(
                    (if r.rc != 0 {
                        config_warning("user.email"@, "email@example.com"@)
                    } else {
                        seq![]
                    }) + seq![line_v(""@, "\x1b[0m"@, Tone::Plain)],
                    s.path + "\n"@,
                ),
            ),
            _ => clone_over(s),
        },
        CloneStage::Over => clone_over(s),
    }
}

// ---------------------------------------------------------------- exec

fn config_warning_lines(key: &str, example: &str) -> (r: Vec<Line>)
    ensures
        lines_view(r@) == config_warning(key@, example@),
{
    let a = concat3(
        "WARNING! Git config doesn't know your ",
        key,
        ". You won't be able to commit unless you configure it.",
    );
    let mut b = concat3("  Set globally:       $ git config --global ", key, " '");
    b.append(example);
    b.append("'");
    let mut c = concat3("  For this repo only: $ cd '$path' && git config --local ", key, " '");
    c.append(example);
    c.append("'");
    let r = joined(
        single(line("", a, Tone::Plain)),
        joined(single(line("", b, Tone::Plain)), single(line("", c, Tone::Plain))),
    );
    proof {
        assert(lines_view(r@) =~= config_warning(key@, example@));
    }
    r
}

impl CloneCommand {
    /// Where to make the repository, or why there is no such place.
    pub fn get_clone_path(&self) -> (r: Result<String, String>)
        ensures
            match r {
                Ok(p) => clone_path(self.url@, self.path_view()) == Ok::<Seq<char>, Seq<char>>(p@),
                Err(m) => clone_path(self.url@, self.path_view()) == Err::<Seq<char>, Seq<char>>(
                    m@,
                ),
            },
    {
        let v = chars_of(self.url.as_str());
        if v.len() == 0 {
            return Err(String::from_str("Usage: clone <url> [path]"));
        }
        match &self.path {
            Some(p) => {
                if p.unicode_len() == 0 {
                    Err(String::from_str("Usage: clone <url> [path]"))
                } else {
                    Ok(p.clone())
                }
            },
            None => {
                let start = match last_index_in(&v, 0, v.len(), '/') {
                    Some(i) => i + 1,
                    None => 0,
                };
                proof {
                    assert(v@.subrange(0, v@.len() as int) =~= v@);
                    assert(after_last(v@, '/') =~= v@.subrange(start as int, v@.len() as int));
                }
                let suffix = vec!['.', 'g', 'i', 't'];
                proof {
                    assert(suffix@ =~= dot_git());
                }
                if ends_with_in(&v, start, v.len(), &suffix) && v.len() - start > 4 {
                    proof {
                        let last = v@.subrange(start as int, v@.len() as int);
                        assert(last.take(last.len() - 4) =~= v@.subrange(
                            start as int,
                            v@.len() - 4,
                        ));
                    }
                    Ok(slice_string(self.url.as_str(), &v, start, v.len() - 4))
                } else {
                    Err(
                        concat3(
                            "Could not derive path from '",
                            self.url.as_str(),
                            "'. Please pass a path explicitly.",
                        ),
                    )
                }
            },
        }
    }

    /// The path given, by its characters.
    pub open spec fn path_view(&self) -> Option<Seq<char>> {
        match self.path {
            Some(p) => Some(p@),
            None => None,
        }
    }

    /// A run of this command that has not begun.
    pub fn start(&self) -> (r: CloneRun)
        ensures
            r@ == clone_start(self.url@, self.path_view()),
    {
        CloneRun {
            url: self.url.clone(),
            given: match &self.path {
                Some(p) => Some(p.clone()),
                None => None,
            },
            stage: CloneStage::Begin,
            path: String::new(),
        }
    }
}

impl CloneRun {
    fn over(&mut self) -> (out: Step)
        ensures
            (final(self)@, out@) == clone_over(old(self)@),
    {
        self.stage = CloneStage::Over;
        quiet(Effect::Finish)
    }

    /// Takes what the last effect gave back and says what to do next.
    pub fn step(&mut self, e: Event) -> (out: Step)
        ensures
            (final(self)@, out@) == clone_next(old(self)@, e@),
    {
        match self.stage {
            CloneStage::Begin => {
                let cmd = CloneCommand {
                    url: self.url.clone(),
                    path: match &self.given {
                        Some(p) => Some(p.clone()),
                        None => None,
                    },
                };
                match cmd.get_clone_path() {
                    Ok(p) => {
                        self.stage = CloneStage::AwaitExists;
                        self.path = p.clone();
                        quiet(Effect::PathExists { path: p })
                    },
                    Err(m) => {
                        self.stage = CloneStage::Over;
                        step(single(line("", m, Tone::Plain)), Effect::Exit { code: 1 })
                    },
                }
            },
            CloneStage::AwaitExists => match e {
                Event::Flag(true) => {
                    let m = concat3("Path '", self.path.as_str(), "' already exists");
                    self.stage = CloneStage::Over;
                    step(single(line("", m, Tone::Plain)), Effect::Exit { code: 1 })
                },
                Event::Flag(false) => {
                    let m = concat2(
                        "Creating folder to hold jgit worktree repository at: ",
                        self.path.as_str(),
                    );
                    self.stage = CloneStage::AwaitMkdir;
                    step(
                        single(line("", m, Tone::Plain)),
                        Effect::CreateDirAll { path: self.path.clone() },
                    )
                },
                _ => self.over(),
            },
            CloneStage::AwaitMkdir => match e {
                Event::Done(Ok(())) => {
                    self.stage = CloneStage::AwaitClone;
                    quiet(
                        run_git(
                            &self.path,
                            args4("clone", "--bare", self.url.as_str(), ".bare"),
                            true,
                        ),
                    )
                },
                Event::Done(Err(m)) => {
                    let mut t = concat3("Could not create '", self.path.as_str(), "': ");
                    t.append(m.as_str());
                    self.stage = CloneStage::Over;
                    step(single(line("", t, Tone::Plain)), Effect::Exit { code: 1 })
                },
                _ => self.over(),
            },
            CloneStage::AwaitClone => match e {
                Event::Git(_) => {
                    self.stage = CloneStage::AwaitGitFile;
                    quiet(
                        Effect::WriteFile {
                            path: join_of(self.path.as_str(), ".git"),
                            content: String::from_str("gitdir: .bare\n"),
                        },
                    )
                },
                _ => self.over(),
            },
            CloneStage::AwaitGitFile => match e {
                Event::Done(Ok(())) => {
                    self.stage = CloneStage::AwaitConfig;
                    quiet(
                        run_git(
                            &self.path,
                            args3(
                                "config",
                                "remote.origin.fetch",
                                "+refs/heads/*:refs/remotes/origin/*",
                            ),
                            true,
                        ),
                    )
                },
                Event::Done(Err(m)) => {
                    let file = join_of(self.path.as_str(), ".git");
                    let mut t = concat3("Could not create '", file.as_str(), "': ");
                    t.append(m.as_str());
                    self.stage = CloneStage::Over;
                    step(single(line("", t, Tone::Plain)), Effect::Exit { code: 1 })
                },
                _ => self.over(),
            },
            CloneStage::AwaitConfig => match e {
                Event::Git(_) => {
                    self.stage = CloneStage::AwaitUserName;
                    step(
                        single(fixed_line("", "\x1b[38;5;208m", Tone::Plain)),
                        run_git(&self.path, args3("config", "--get", "user.name"), false),
                    )
                },
                _ => self.over(),
            },
            CloneStage::AwaitUserName => match e {
                Event::Git(r) => {
                    let say = if r.rc != 0 {
                        config_warning_lines("user.name", "Your Name")
                    } else {
                        no_lines()
                    };
                    self.stage = CloneStage::AwaitUserEmail;
                    step(say, run_git(&self.path, args3("config", "--get", "user.email"), false))
                },
                _ => self.over(),
            },
            CloneStage::AwaitUserEmail => match e {
                Event::Git(r) => {
                    let say = if r.rc != 0 {
                        config_warning_lines("user.email", "email@example.com")
                    } else {
                        no_lines()
                    };
                    let say = joined(say, single(fixed_line("", "\x1b[0m", Tone::Plain)));
                    self.stage = CloneStage::Over;
                    finish(say, concat2(self.path.as_str(), "\n"))
                },
                _ => self.over(),
            },
            CloneStage::Over => self.over(),
        }
    }
}

// ---------------------------------------------------------------- laws

/// Law: with no path given, `jgit clone` makes the repository in the
/// directory named by the URL's last `/`-separated piece without its `.git`
/// ending: the whole name, dots and all.
pub proof fn law_clone_path_is_url_name(pre: Seq<char>, name: Seq<char>)
    requires
        pre.len() == 0 || pre.last() == '/',
        name.len() > 0,
        !name.contains('/'),
    ensures
        clone_path(pre + name + seq!['.', 'g', 'i', 't'], None) == Ok::<Seq<char>, Seq<char>>(name),
{
    let git = seq!['.', 'g', 'i', 't'];
    let url = pre + name + git;
    let k: int = pre.len() - 1;
    assert forall|i: int| k < i < url.len() implies #[trigger] url[i] != '/' by {
        if i < pre.len() + name.len() {
            assert(url[i] == name[i - pre.len()]);
        }
    }
    if pre.len() > 0 {
        assert(url[k] == '/');
    }
    lemma_last_index_of(url, '/', k);
    let last = after_last(url, '/');
    assert(last =~= name + git);
    assert(last.skip(last.len() - 4) =~= git);
    assert(git =~= dot_git());
    assert(last.take(last.len() - 4) =~= name);
}

/// Law: a path given to `jgit clone` is where the repository is made, as it
/// is, whenever the URL and the path are not empty.
pub proof fn law_clone_path_given(url: Seq<char>, path: Seq<char>)
    requires
        url.len() > 0,
        path.len() > 0,
    ensures
        clone_path(url, Some(path)) == Ok::<Seq<char>, Seq<char>>(path),
{
}

/// Law: `jgit clone` makes the bare layout in its directory: it clones the
/// URL bare into `.bare`, writes a `.git` file that points there, and has
/// origin fetch every branch into `refs/remotes/origin`; each git run must
/// succeed.
pub proof fn law_clone_makes_bare_layout(s: CloneV, r: GitResultV)
    ensures
        s.stage == CloneStage::AwaitMkdir ==> clone_next(s, EventV::Done(Ok(()))).1.next == EffectV::Git(
            s.path,
            seq!["clone"@, "--bare"@, s.url, ".bare"@],
            true,
        ),
        s.stage == CloneStage::AwaitClone ==> clone_next(s, EventV::Git(r)).1.next == EffectV::WriteFile(
            join(s.path, ".git"@),
            "gitdir: .bare\n"@,
        ),
        s.stage == CloneStage::AwaitGitFile ==> clone_next(s, EventV::Done(Ok(()))).1.next == EffectV::Git(
            s.path,
            seq!["config"@, "remote.origin.fetch"@, "+refs/heads/*:refs/remotes/origin/*"@],
            true,
        ),
        s.stage == CloneStage::AwaitUserEmail ==> clone_next(s, EventV::Git(r)).1.show == s.path + "\n"@,
{
}

} // verus!
