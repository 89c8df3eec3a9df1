//! The command line as a whole: which command was asked for, and the run
//! that carries it out.
use vstd::prelude::*;
use crate::autocomplete::{completion_next, completion_start, AutocompleteCommand, CompletionRun, CompletionV};
use crate::branch::{branch_next, branch_start, BranchCommand, BranchRun, BranchV};
use crate::clean::{clean_next, clean_start, CleanCommand, CleanRun, CleanV};
use crate::clone::{clone_next, clone_start, CloneCommand, CloneRun, CloneV};
use crate::session::{Event, EventV, Step, StepV};
use crate::tree::{tree_next, tree_start, TreeCommand, TreeRun, TreeV};

verus! {

/// The commands of jgit.
pub enum Commands {
    /// Recursively finds and prints jgit worktree repositories.
    Tree(TreeCommand),
    /// Clones a new jgit-managed git repository.
    Clone(CloneCommand),
    /// Creates a new jgit worktree for a branch name.
    Branch(BranchCommand),
    /// Deletes local worktrees that have no remote branch, and branches that
    /// no worktree checks out.
    Clean(CleanCommand),
    /// Generates, adds and removes jgit's completions for a shell.
    Autocomplete(AutocompleteCommand),
}

/// jgit's command line: the command, and the git executable to run.
pub struct JGitCli {
    pub command: Commands,
    /// The git executable; `git` unless another one is given.
    pub git: String,
}

/// A run of one of the commands.
pub enum CommandRun {
    Tree(TreeRun),
    Clone(CloneRun),
    Branch(BranchRun),
    Clean(CleanRun),
    Autocomplete(CompletionRun),
}

pub enum CommandRunV {
    Tree(TreeV),
    Clone(CloneV),
    Branch(BranchV),
    Clean(CleanV),
    Autocomplete(CompletionV),
}

impl View for CommandRun {
    type V = CommandRunV;

    open spec fn view(&self) -> CommandRunV {
        match self {
            CommandRun::Tree(r) => CommandRunV::Tree(r@),
            CommandRun::Clone(r) => CommandRunV::Clone(r@),
            CommandRun::Branch(r) => CommandRunV::Branch(r@),
            CommandRun::Clean(r) => CommandRunV::Clean(r@),
            CommandRun::Autocomplete(r) => CommandRunV::Autocomplete(r@),
        }
    }
}

impl CommandRun {
    /// The run's own invariant holds.
    pub open spec fn wf(&self) -> bool {
        match self {
            CommandRun::Tree(r) => r.wf(),
            _ => true,
        }
    }
}

/// The run a command starts with.
pub open spec fn command_start(c: Commands) -> CommandRunV {
    match c {
        Commands::Tree(t) => CommandRunV::Tree(tree_start(t.hide_branches)),
        Commands::Clone(c) => CommandRunV::Clone(clone_start(c.url@, c.path_view())),
        Commands::Branch(b) => CommandRunV::Branch(branch_start(
            b.name@,
            match b.from {
                Some(f) => Some(f@),
                None => None,
            },
        )),
        Commands::Clean(c) => CommandRunV::Clean(clean_start(c.autoconfirm)),
        Commands::Autocomplete(a) => CommandRunV::Autocomplete(completion_start(a)),
    }
}

/// One step of whichever command is running.
pub open spec fn command_next(s: CommandRunV, e: EventV) -> (CommandRunV, StepV) {
    match s {
        CommandRunV::Tree(t) => {
            let (t2, out) = tree_next(t, e);
            (CommandRunV::Tree(t2), out)
        },
        CommandRunV::Clone(c) => {
            let (c2, out) = clone_next(c, e);
            (CommandRunV::Clone(c2), out)
        },
        CommandRunV::Branch(b) => {
            let (b2, out) = branch_next(b, e);
            (CommandRunV::Branch(b2), out)
        },
        CommandRunV::Clean(c) => {
            let (c2, out) = clean_next(c, e);
            (CommandRunV::Clean(c2), out)
        },
        CommandRunV::Autocomplete(a) => {
            let (a2, out) = completion_next(a, e);
            (CommandRunV::Autocomplete(a2), out)
        },
    }
}

/// A command that jgit can run.
pub trait RunCommand {
    /// The run this command starts with.
    spec fn started(&self) -> CommandRunV;

    /// Starts a run of this command under the command line `root`.
    fn run(&self, root: &JGitCli) -> (r: CommandRun)
        ensures
            r@ == self.started(),
            r.wf(),
    ;
}

impl RunCommand for TreeCommand {
    open spec fn started(&self) -> CommandRunV {
        CommandRunV::Tree(tree_start(self.hide_branches))
    }

    fn run(&self, root: &JGitCli) -> (r: CommandRun) {
        CommandRun::Tree(self.start())
    }
}

impl RunCommand for CloneCommand {
    open spec fn started(&self) -> CommandRunV {
        CommandRunV::Clone(clone_start(self.url@, self.path_view()))
    }

    fn run(&self, root: &JGitCli) -> (r: CommandRun) {
        CommandRun::Clone(self.start())
    }
}

impl RunCommand for BranchCommand {
    open spec fn started(&self) -> CommandRunV {
        CommandRunV::Branch(branch_start(
            self.name@,
            match self.from {
                Some(f) => Some(f@),
                None => None,
            },
        ))
    }

    fn run(&self, root: &JGitCli) -> (r: CommandRun) {
        CommandRun::Branch(self.start())
    }
}

impl RunCommand for CleanCommand {
    open spec fn started(&self) -> CommandRunV {
        CommandRunV::Clean(clean_start(self.autoconfirm))
    }

    fn run(&self, root: &JGitCli) -> (r: CommandRun) {
        CommandRun::Clean(self.start())
    }
}

impl RunCommand for AutocompleteCommand {
    open spec fn started(&self) -> CommandRunV {
        CommandRunV::Autocomplete(completion_start(*self))
    }

    fn run(&self, root: &JGitCli) -> (r: CommandRun) {
        CommandRun::Autocomplete(self.start())
    }
}

impl JGitCli {
    /// Starts a run of the command that was asked for.
    pub fn run(&self) -> (r: CommandRun)
        ensures
            r@ == command_start(self.command),
            r.wf(),
    {
        match &self.command {
            Commands::Tree(cmd) => cmd.run(self),
            Commands::Clone(cmd) => cmd.run(self),
            Commands::Branch(cmd) => cmd.run(self),
            Commands::Clean(cmd) => cmd.run(self),
            Commands::Autocomplete(cmd) => cmd.run(self),
        }
    }
}

impl CommandRun {
    /// Takes what the last effect gave back and says what to do next.
    pub fn step(&mut self, e: Event) -> (out: Step)
        requires
            old(self).wf(),
        ensures
            final(self).wf(),
            (final(self)@, out@) == command_next(old(self)@, e@),
    {
        match self {
            CommandRun::Tree(r) => r.step(e),
            CommandRun::Clone(r) => r.step(e),
            CommandRun::Branch(r) => r.step(e),
            CommandRun::Clean(r) => r.step(e),
            CommandRun::Autocomplete(r) => r.step(e),
        }
    }
}

} // verus!
