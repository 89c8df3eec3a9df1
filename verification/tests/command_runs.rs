use jgit::autocomplete::{bash_script, fish_script, zsh_script, AutocompleteCommand, Operation, Shell};
use jgit::branch::BranchCommand;
use jgit::clean::CleanCommand;
use jgit::clone::CloneCommand;
use jgit::commands::{CommandRun, Commands, JGitCli, RunCommand};
use jgit::git::GitResult;
use jgit::session::{Effect, Entry, Event, Step, Tone};
use jgit::tree::TreeCommand;

fn git(rc: i32, stdout: &str) -> Event {
    Event::Git(GitResult {
        rc,
        stderr: "oops".to_string(),
        stdout: stdout.to_string(),
        command: String::new(),
    })
}

fn place(p: &str) -> Event {
    Event::Place(Ok(p.to_string()))
}

fn done() -> Event {
    Event::Done(Ok(()))
}

fn said(s: &Step) -> Vec<String> {
    s.say.iter().map(|l| format!("{}{}", l.lead, l.text)).collect()
}

fn expect_git(s: &Step, cwd: &str, args: &[&str], must_succeed: bool) {
    match &s.next {
        Effect::Git { cwd: c, args: a, must_succeed: m } => {
            assert_eq!(c, cwd);
            assert_eq!(a, &args.iter().map(|x| x.to_string()).collect::<Vec<_>>());
            assert_eq!(*m, must_succeed);
        },
        _ => panic!("expected a git run of {args:?}"),
    }
}

fn expect_exists(s: &Step, path: &str) {
    match &s.next {
        Effect::PathExists { path: p } => assert_eq!(p, path),
        _ => panic!("expected a check of {path}"),
    }
}

fn expect_finish(s: &Step) {
    assert!(matches!(s.next, Effect::Finish), "expected the end");
}

fn expect_exit(s: &Step, code: i32) {
    match &s.next {
        Effect::Exit { code: c } => assert_eq!(*c, code),
        _ => panic!("expected exit {code}"),
    }
}

// ------------------------------------------------------------------ clone

fn clone_cmd(url: &str, path: Option<&str>) -> CloneCommand {
    CloneCommand { url: url.to_string(), path: path.map(|p| p.to_string()) }
}

#[test]
fn clone_paths() {
    let usage = Err("Usage: clone <url> [path]".to_string());
    assert_eq!(clone_cmd("https://github.com/just1ngray/jgit.git", None).get_clone_path(), Ok("jgit".to_string()));
    assert_eq!(clone_cmd("git@host:me/tool.git", None).get_clone_path(), Ok("tool".to_string()));
    assert_eq!(clone_cmd("u", Some("here/there")).get_clone_path(), Ok("here/there".to_string()));
    assert_eq!(clone_cmd("", Some("x")).get_clone_path(), usage);
    assert_eq!(clone_cmd("u", Some("")).get_clone_path(), usage);
    let underived = "Could not derive path from 'https://h/x/.git'. Please pass a path explicitly.";
    assert_eq!(clone_cmd("https://h/x/.git", None).get_clone_path(), Err(underived.to_string()));
    assert_eq!(
        clone_cmd("https://h/x/repo", None).get_clone_path(),
        Err("Could not derive path from 'https://h/x/repo'. Please pass a path explicitly.".to_string())
    );
}

#[test]
fn clone_makes_a_bare_repository() {
    let url = "https://github.com/just1ngray/jgit.git";
    let mut r = clone_cmd(url, None).start();
    let s = r.step(Event::Start);
    expect_exists(&s, "jgit");
    let s = r.step(Event::Flag(false));
    assert_eq!(said(&s), vec!["Creating folder to hold jgit worktree repository at: jgit"]);
    assert!(matches!(&s.next, Effect::CreateDirAll { path } if path == "jgit"));
    let s = r.step(done());
    expect_git(&s, "jgit", &["clone", "--bare", url, ".bare"], true);
    let s = r.step(git(0, ""));
    assert!(matches!(&s.next, Effect::WriteFile { path, content } if path == "jgit/.git" && content == "gitdir: .bare\n"));
    let s = r.step(done());
    expect_git(&s, "jgit", &["config", "remote.origin.fetch", "+refs/heads/*:refs/remotes/origin/*"], true);
    let s = r.step(git(0, ""));
    assert_eq!(said(&s), vec!["\x1b[38;5;208m"]);
    expect_git(&s, "jgit", &["config", "--get", "user.name"], false);
    let s = r.step(git(1, ""));
    assert_eq!(said(&s).len(), 3);
    assert_eq!(
        said(&s)[0],
        "WARNING! Git config doesn't know your user.name. You won't be able to commit unless you configure it."
    );
    assert_eq!(said(&s)[1], "  Set globally:       $ git config --global user.name 'Your Name'");
    expect_git(&s, "jgit", &["config", "--get", "user.email"], false);
    let s = r.step(git(0, "me@example.com\n"));
    assert_eq!(said(&s), vec!["\x1b[0m"]);
    assert_eq!(s.show, "jgit\n");
    expect_finish(&s);
}

#[test]
fn clone_refuses_an_existing_path() {
    let mut r = clone_cmd("u", Some("taken")).start();
    let s = r.step(Event::Start);
    expect_exists(&s, "taken");
    let s = r.step(Event::Flag(true));
    assert_eq!(said(&s), vec!["Path 'taken' already exists"]);
    expect_exit(&s, 1);
}

#[test]
fn clone_without_a_name_exits() {
    let mut r = clone_cmd("https://h/repo", None).start();
    let s = r.step(Event::Start);
    assert_eq!(said(&s), vec!["Could not derive path from 'https://h/repo'. Please pass a path explicitly."]);
    expect_exit(&s, 1);
}

// ------------------------------------------------------------------ branch

fn branch_to_checks(name: &str, from: Option<&str>) -> jgit::branch::BranchRun {
    let mut r = BranchCommand { name: name.to_string(), from: from.map(|f| f.to_string()) }.start();
    let s = r.step(Event::Start);
    assert!(matches!(s.next, Effect::CurrentDir));
    let s = r.step(place("/repo"));
    expect_exists(&s, "/repo/.bare");
    let s = r.step(Event::Flag(true));
    expect_exists(&s, &format!("/repo/{name}"));
    let s = r.step(Event::Flag(false));
    expect_git(&s, "/repo", &["fetch"], true);
    let s = r.step(git(0, ""));
    expect_git(&s, "/repo", &["ls-remote", "--exit-code", "origin", name], false);
    r
}

#[test]
fn branch_tracks_a_remote_branch() {
    let mut r = branch_to_checks("feat", None);
    let s = r.step(git(0, "abc refs/heads/feat"));
    expect_git(&s, "/repo", &["worktree", "add", "-B", "feat", "feat"], true);
    let s = r.step(git(0, ""));
    expect_git(&s, "/repo/feat", &["branch", "--set-upstream-to", "origin/feat"], true);
    let s = r.step(git(0, ""));
    expect_git(&s, "/repo/feat", &["reset", "--hard", "origin/feat"], true);
    let s = r.step(git(0, ""));
    assert_eq!(s.show, "feat\n");
    expect_finish(&s);
}

#[test]
fn branch_from_a_given_branch_asks_nothing() {
    let mut r = branch_to_checks("new", Some("master"));
    let s = r.step(git(2, ""));
    assert_eq!(said(&s), vec!["Branch 'new' does not exist on remote"]);
    expect_git(&s, "/repo", &["ls-remote", "--exit-code", "origin", "master"], false);
    let s = r.step(git(0, ""));
    assert_eq!(said(&s), vec!["Creating branch 'new' from 'master'"]);
    expect_git(&s, "/repo", &["fetch", "origin", "master"], true);
    let s = r.step(git(0, ""));
    expect_git(&s, "/repo", &["worktree", "add", "-B", "new", "new", "origin/master"], true);
    let s = r.step(git(0, ""));
    expect_git(&s, "/repo/new", &["push", "origin", "new"], true);
    let s = r.step(git(0, ""));
    expect_git(&s, "/repo/new", &["branch", "--set-upstream-to", "origin/new"], true);
    let s = r.step(git(0, ""));
    assert_eq!(s.show, "new\n");
    expect_finish(&s);
}

#[test]
fn branch_asks_which_branch_to_split_from() {
    let mut r = branch_to_checks("new", None);
    let s = r.step(git(2, ""));
    expect_git(&s, "/repo", &["symbolic-ref", "HEAD"], false);
    let s = r.step(git(0, "refs/heads/main\n"));
    match &s.next {
        Effect::Ask { prompt, tone } => {
            assert_eq!(prompt, "Create branch 'new' from which branch? (main): ");
            assert_eq!(*tone, Tone::Plain);
        },
        _ => panic!("expected a question"),
    }
    let s = r.step(Event::Answer("\n".to_string()));
    expect_git(&s, "/repo", &["ls-remote", "--exit-code", "origin", "main"], false);
    let s = r.step(git(2, ""));
    assert_eq!(said(&s), vec!["Err: Branch 'main' does not exist on remote"]);
    expect_exit(&s, 1);
}

#[test]
fn branch_outside_a_repository_exits() {
    let mut r = BranchCommand { name: "x".to_string(), from: None }.start();
    r.step(Event::Start);
    r.step(place("/tmp"));
    let s = r.step(Event::Flag(false));
    assert_eq!(said(&s), vec!["This command must be executed from git repository"]);
    expect_exit(&s, 1);
}

#[test]
fn branch_that_has_a_directory_exits() {
    let mut r = BranchCommand { name: "x".to_string(), from: None }.start();
    r.step(Event::Start);
    r.step(place("/repo"));
    r.step(Event::Flag(true));
    let s = r.step(Event::Flag(true));
    assert_eq!(said(&s), vec!["Branch 'x' already exists as a local worktree directory"]);
    expect_exit(&s, 1);
}

#[test]
fn branch_without_a_current_branch_exits_with_git_code() {
    let mut r = branch_to_checks("new", None);
    r.step(git(2, ""));
    let s = r.step(git(128, ""));
    assert_eq!(said(&s), vec!["Could not determine current branch: oops"]);
    expect_exit(&s, 128);
}

// ------------------------------------------------------------------ clean

const REMOTES: &str = "  origin/HEAD -> origin/main\n  origin/main\n";
const WORKTREES: &str = "/repo/.bare (bare)\n/repo/main 1111111 [main]\n/repo/feat/x 2222222 [feat/x]\n/repo/held 4444444 [held] locked\n/repo/gone 5555555 [gone] prunable\n/repo/dirty 3333333 [dirty]\n";

fn clean_to_worktrees(autoconfirm: bool) -> (jgit::clean::CleanRun, Step) {
    let mut r = CleanCommand { autoconfirm }.start();
    r.step(Event::Start);
    let s = r.step(place("/repo"));
    expect_exists(&s, "/repo/.bare");
    let s = r.step(Event::Flag(true));
    expect_git(&s, "/repo", &["fetch", "--prune"], true);
    let s = r.step(git(0, ""));
    if autoconfirm {
        assert_eq!(
            said(&s),
            vec!["!! Proceeding to clean worktrees and branches without prompting for confirmation"]
        );
    } else {
        assert!(s.say.is_empty());
    }
    expect_git(&s, "/repo", &["branch", "--remotes"], false);
    let s = r.step(git(0, REMOTES));
    expect_git(&s, "/repo", &["worktree", "list"], false);
    let s = r.step(git(0, WORKTREES));
    (r, s)
}

#[test]
fn clean_removes_gone_worktrees_and_unused_branches() {
    let (mut r, s) = clean_to_worktrees(false);
    assert_eq!(said(&s), vec!["\nWORKTREES TO DELETE", "    feat/x", "    dirty"]);
    match &s.next {
        Effect::Ask { prompt, tone } => {
            assert_eq!(prompt, "Proceed? y/(n): ");
            assert_eq!(*tone, Tone::Cyan);
        },
        _ => panic!("expected a question"),
    }
    let s = r.step(Event::Answer("Y\n".to_string()));
    expect_git(&s, "/repo/feat/x", &["status", "--porcelain"], false);
    let s = r.step(git(0, "  \n"));
    assert_eq!(said(&s), vec!["Removing worktree feat/x"]);
    expect_git(&s, "/repo", &["worktree", "remove", "feat/x", "--force"], true);
    let s = r.step(git(0, ""));
    assert!(matches!(&s.next, Effect::RemoveDir { path } if path == "/repo/feat"));
    let s = r.step(done());
    assert_eq!(said(&s), vec!["Deleted empty directory /repo/feat"]);
    expect_git(&s, "/repo/dirty", &["status", "--porcelain"], false);
    let s = r.step(git(0, "?? new.txt\n"));
    assert_eq!(
        said(&s),
        vec![
            "  -> Skipping: 'dirty' contains untracked or modified files.",
            "\n---------------------",
            "\nUntracked files. Inspect, and possibly remove with --force:",
            "    git worktree remove 'dirty' --force",
            "\nREMAINING WORKTREES:",
        ]
    );
    expect_git(&s, "/repo", &["worktree", "list"], false);
    let s = r.step(git(0, "/repo/.bare (bare)\n/repo/main 1111111 [main]\n"));
    assert_eq!(said(&s), vec!["    /repo/.bare (bare)", "    /repo/main 1111111 [main]"]);
    expect_git(&s, "/repo", &["branch", "--format=%(refname:short)"], false);
    let s = r.step(git(0, "main\nold\ndirty\nkept\n"));
    expect_git(&s, "/repo", &["worktree", "list"], false);
    let s = r.step(git(
        0,
        "/repo/.bare (bare)\n/repo/main 1 [main]\n/repo/dirty 3 [dirty] prunable\n/repo/my kept 4 [kept] locked\n",
    ));
    assert_eq!(said(&s), vec!["\nBRANCHES TO DELETE", "    old"]);
    assert!(matches!(s.next, Effect::Ask { .. }));
    let s = r.step(Event::Answer("yes".to_string()));
    expect_git(&s, "/repo", &["branch", "-D", "old"], true);
    let s = r.step(git(0, ""));
    assert_eq!(said(&s), vec!["\nREMAINING BRANCHES:"]);
    expect_git(&s, "/repo", &["branch"], false);
    let s = r.step(git(0, "  dirty\n* main\n"));
    assert_eq!(said(&s), vec!["      dirty", "    * main"]);
    expect_finish(&s);
}

#[test]
fn clean_cancelled_worktrees_go_on_to_branches() {
    let (mut r, _) = clean_to_worktrees(false);
    let s = r.step(Event::Answer("n".to_string()));
    assert_eq!(said(&s), vec!["Cancelling worktree removal"]);
    assert_eq!(s.say[0].tone, Tone::Red);
    expect_git(&s, "/repo", &["branch", "--format=%(refname:short)"], false);
    r.step(git(0, "main\n"));
    let s = r.step(git(0, "/repo/main 1 [main]\n"));
    assert_eq!(said(&s), vec!["No branches to delete. Every branch is checked out on a worktree"]);
    expect_finish(&s);
}

#[test]
fn clean_with_yes_asks_nothing() {
    let (mut r, s) = clean_to_worktrees(true);
    assert_eq!(said(&s), vec!["\nWORKTREES TO DELETE", "    feat/x", "    dirty"]);
    expect_git(&s, "/repo/feat/x", &["status", "--porcelain"], false);
    let s = r.step(git(0, "M a\n"));
    expect_git(&s, "/repo/dirty", &["status", "--porcelain"], false);
    let s = r.step(git(0, "M b\n"));
    expect_git(&s, "/repo", &["worktree", "list"], false);
    r.step(git(0, ""));
    r.step(git(0, "gone\n"));
    let s = r.step(git(0, ""));
    assert_eq!(said(&s), vec!["\nBRANCHES TO DELETE", "    gone"]);
    expect_git(&s, "/repo", &["branch", "-D", "gone"], true);
}

#[test]
fn clean_outside_the_top_level_exits() {
    let mut r = CleanCommand { autoconfirm: false }.start();
    r.step(Event::Start);
    r.step(place("/repo/main"));
    let s = r.step(Event::Flag(false));
    assert_eq!(said(&s), vec!["This command must be executed from your top-level worktree repository"]);
    assert_eq!(s.say[0].tone, Tone::Red);
    expect_exit(&s, 1);
}

#[test]
fn clean_with_nothing_to_remove() {
    let mut r = CleanCommand { autoconfirm: false }.start();
    r.step(Event::Start);
    r.step(place("/repo"));
    r.step(Event::Flag(true));
    r.step(git(0, ""));
    r.step(git(0, "  origin/main\n"));
    let s = r.step(git(0, "/repo/main 1 [main]\n"));
    assert_eq!(said(&s), vec!["No worktrees to delete. Every worktree branch exists on remote"]);
    assert_eq!(s.say[0].tone, Tone::Green);
    expect_git(&s, "/repo", &["branch", "--format=%(refname:short)"], false);
}

// ------------------------------------------------------------------ tree

fn entry(name: &str, is_dir: bool) -> Entry {
    Entry { name: name.to_string(), is_dir }
}

fn tree_walk(hide_branches: bool) -> (jgit::tree::TreeRun, Step) {
    let mut r = TreeCommand { hide_branches }.start();
    let s = r.step(Event::Start);
    assert!(matches!(s.next, Effect::CurrentDir));
    let s = r.step(place("/home/u"));
    assert!(matches!(&s.next, Effect::ReadDir { path } if path == "/home/u"));
    let s = r.step(Event::Entries(vec![entry("notes.txt", false), entry("work", true), entry("zeta", true)]));
    assert!(matches!(&s.next, Effect::ReadDir { path } if path == "/home/u/zeta"));
    let s = r.step(Event::Entries(vec![entry(".bare", true), entry("main", true)]));
    assert!(matches!(&s.next, Effect::ReadDir { path } if path == "/home/u/zeta/main"));
    let s = r.step(Event::Entries(vec![]));
    assert!(matches!(&s.next, Effect::ReadDir { path } if path == "/home/u/work"));
    let s = r.step(Event::Entries(vec![entry("app", true)]));
    assert!(matches!(&s.next, Effect::ReadDir { path } if path == "/home/u/work/app"));
    let s = r.step(Event::Entries(vec![entry(".bare", true)]));
    (r, s)
}

#[test]
fn tree_shows_repositories_and_worktrees() {
    let (mut r, s) = tree_walk(false);
    assert!(matches!(&s.next, Effect::Canonicalize { path } if path == "/home/u/work/app"));
    let s = r.step(place("/home/u/work/app"));
    expect_git(&s, "/home/u/work/app", &["worktree", "list", "--porcelain"], false);
    let s = r.step(git(
        0,
        "worktree /home/u/work/app/.bare\nbare\n\n\
         worktree /home/u/work/app/main\nHEAD 1111111111111111111111111111111111111111\nbranch refs/heads/main\n\n\
         worktree /home/u/work/app/feat/a\nHEAD 2222222222222222222222222222222222222222\nbranch refs/heads/feat/a\nlocked\n\n",
    ));
    assert!(matches!(&s.next, Effect::Canonicalize { path } if path == "/home/u/zeta"));
    let s = r.step(Event::Place(Err("gone".to_string())));
    expect_git(&s, "/home/u/zeta", &["worktree", "list", "--porcelain"], false);
    let s = r.step(git(0, "worktree /home/u/zeta/.bare\nbare\n\n"));
    expect_finish(&s);
    let mut expected = termtree::Tree::new(".".to_string());
    let mut work = termtree::Tree::new("work".to_string());
    let mut app = termtree::Tree::new("app".to_string());
    app.push(termtree::Tree::new("main".to_string()));
    app.push(termtree::Tree::new("feat\u{2215}a".to_string()));
    work.push(app);
    expected.push(work);
    let mut zeta = termtree::Tree::new("zeta".to_string());
    zeta.push(termtree::Tree::new("(no worktrees)".to_string()));
    expected.push(zeta);
    assert_eq!(s.show, format!("{expected}\n2 jgit repositories, 2 worktrees\n"));
}

#[test]
fn tree_can_hide_worktrees() {
    let (_, s) = tree_walk(true);
    expect_finish(&s);
    let mut expected = termtree::Tree::new(".".to_string());
    let mut work = termtree::Tree::new("work".to_string());
    work.push(termtree::Tree::new("app".to_string()));
    expected.push(work);
    expected.push(termtree::Tree::new("zeta".to_string()));
    assert_eq!(s.show, format!("{expected}\n2 jgit repositories\n"));
}

#[test]
fn tree_without_repositories() {
    let mut r = TreeCommand { hide_branches: false }.start();
    r.step(Event::Start);
    r.step(place("/empty"));
    let s = r.step(Event::Entries(vec![entry("file", false)]));
    assert_eq!(said(&s), vec!["No jgit repositories found in /empty"]);
    expect_finish(&s);
}

#[test]
fn tree_of_a_repository_itself() {
    let mut r = TreeCommand { hide_branches: true }.start();
    r.step(Event::Start);
    r.step(place("/repo"));
    let s = r.step(Event::Entries(vec![entry(".bare", true)]));
    let expected = termtree::Tree::new(".".to_string());
    assert_eq!(s.show, format!("{expected}\n1 jgit repositories\n"));
}

// ------------------------------------------------------------------ autocomplete

fn completion(shell: Option<Shell>, operation: Operation) -> jgit::autocomplete::CompletionRun {
    AutocompleteCommand { shell, operation }.start()
}

#[test]
fn generate_prints_the_snippet() {
    let mut r = completion(Some(Shell::Zsh), Operation::Generate);
    let s = r.step(Event::Start);
    assert_eq!(s.show, format!("{}\n", zsh_script()));
    assert!(zsh_script().contains("source <(COMPLETE=zsh jgit)"));
    expect_finish(&s);
}

#[test]
fn the_shell_comes_from_shell_var() {
    assert_eq!(AutocompleteCommand::get_current_shell("/usr/bin/fish"), Ok(Shell::Fish));
    assert_eq!(AutocompleteCommand::get_current_shell("bash"), Ok(Shell::Bash));
    assert_eq!(AutocompleteCommand::get_current_shell("/bin/zsh"), Ok(Shell::Zsh));
    assert_eq!(AutocompleteCommand::get_current_shell("/bin/tcsh"), Err("tcsh".to_string()));
    assert_eq!(AutocompleteCommand::get_current_shell("/bin/"), Err("".to_string()));

    let mut r = completion(None, Operation::Generate);
    let s = r.step(Event::Start);
    assert!(matches!(s.next, Effect::ShellVar));
    let s = r.step(place("/bin/bash"));
    assert_eq!(s.show, format!("{}\n", bash_script()));

    let mut r = completion(None, Operation::Install);
    r.step(Event::Start);
    let s = r.step(place("/bin/ksh"));
    assert_eq!(said(&s), vec!["Unsupported shell: ksh"]);
    expect_exit(&s, 1);
}

#[test]
fn install_appends_then_finds_it_installed() {
    let mut r = completion(Some(Shell::Bash), Operation::Install);
    let s = r.step(Event::Start);
    assert!(matches!(s.next, Effect::HomeDir));
    let s = r.step(place("/home/u"));
    assert!(matches!(&s.next, Effect::ReadFile { path } if path == "/home/u/.bashrc"));
    let s = r.step(place("alias ll='ls -l'\n"));
    assert!(matches!(&s.next, Effect::CreateDirAll { path } if path == "/home/u"));
    let s = r.step(done());
    match &s.next {
        Effect::AppendLine { path, content, open_failure } => {
            assert_eq!(path, "/home/u/.bashrc");
            assert_eq!(content, bash_script());
            assert_eq!(open_failure, "Could not open /home/u/.bashrc");
        },
        _ => panic!("expected an append"),
    }
    let s = r.step(done());
    assert_eq!(said(&s), vec!["Added jgit install to /home/u/.bashrc", "Run 'source /home/u/.bashrc' now"]);
    expect_finish(&s);

    let installed = format!("alias ll='ls -l'\n{}\n", bash_script());
    let mut again = completion(Some(Shell::Bash), Operation::Install);
    again.step(Event::Start);
    again.step(place("/home/u"));
    let s = again.step(place(&installed));
    assert_eq!(said(&s), vec!["Already installed in /home/u/.bashrc"]);
    expect_finish(&s);

    let mut undo = completion(Some(Shell::Bash), Operation::Uninstall);
    undo.step(Event::Start);
    undo.step(place("/home/u"));
    let s = undo.step(place(&installed));
    match &s.next {
        Effect::WriteFile { path, content } => {
            assert_eq!(path, "/home/u/.bashrc");
            assert_eq!(content, "alias ll='ls -l'\n\n");
            assert_eq!(content, &installed.replace(bash_script(), ""));
        },
        _ => panic!("expected a write"),
    }
    let s = undo.step(done());
    assert_eq!(said(&s), vec!["Uninstalled jgit from /home/u/.bashrc"]);
}

#[test]
fn uninstall_without_the_snippet() {
    let mut r = completion(Some(Shell::Zsh), Operation::Uninstall);
    r.step(Event::Start);
    r.step(place("/home/u"));
    let s = r.step(place("nothing here\n"));
    assert_eq!(said(&s), vec!["Already uninstalled from /home/u/.zshrc"]);
    let mut r = completion(Some(Shell::Zsh), Operation::Uninstall);
    r.step(Event::Start);
    r.step(place("/home/u"));
    let s = r.step(Event::Place(Err("not found".to_string())));
    assert_eq!(said(&s), vec!["Already uninstalled from /home/u/.zshrc (does not exist)"]);
    expect_finish(&s);
}

#[test]
fn uninstall_write_failure_exits() {
    let mut r = completion(Some(Shell::Zsh), Operation::Uninstall);
    r.step(Event::Start);
    r.step(place("/home/u"));
    r.step(place(&format!("{}\n", zsh_script())));
    let s = r.step(Event::Done(Err("denied".to_string())));
    assert_eq!(said(&s), vec!["denied", ""]);
    expect_exit(&s, 1);
}

#[test]
fn fish_install_and_uninstall() {
    let mut r = completion(Some(Shell::Fish), Operation::Install);
    r.step(Event::Start);
    let s = r.step(place("/home/u"));
    assert!(matches!(&s.next, Effect::CreateDirAll { path } if path == "/home/u/.config/fish/conf.d"));
    let s = r.step(done());
    assert!(matches!(&s.next, Effect::WriteFile { path, content }
        if path == "/home/u/.config/fish/conf.d/jgit.fish" && content == fish_script()));
    let s = r.step(done());
    assert_eq!(
        said(&s),
        vec![
            "Added jgit install to /home/u/.config/fish/conf.d/jgit.fish",
            "Run 'source /home/u/.config/fish/conf.d/jgit.fish' now",
        ]
    );

    let mut r = completion(Some(Shell::Fish), Operation::Uninstall);
    r.step(Event::Start);
    let s = r.step(place("/home/u"));
    expect_exists(&s, "/home/u/.config/fish/conf.d/jgit.fish");
    let s = r.step(Event::Flag(true));
    assert!(matches!(&s.next, Effect::RemoveFile { path } if path == "/home/u/.config/fish/conf.d/jgit.fish"));
    let s = r.step(done());
    assert_eq!(said(&s), vec!["Uninstalled jgit from /home/u/.config/fish/conf.d/jgit.fish"]);

    let mut r = completion(Some(Shell::Fish), Operation::Uninstall);
    r.step(Event::Start);
    r.step(place("/home/u"));
    let s = r.step(Event::Flag(false));
    assert_eq!(
        said(&s),
        vec!["Already uninstalled from /home/u/.config/fish/conf.d/jgit.fish (does not exist)"]
    );
}

#[test]
fn missing_home_panics() {
    let mut r = completion(Some(Shell::Bash), Operation::Install);
    r.step(Event::Start);
    let s = r.step(Event::Place(Err("no home".to_string())));
    assert!(matches!(&s.next, Effect::Panic { message } if message == "Unknown home directory"));
}

// ------------------------------------------------------------------ the command line

#[test]
fn the_command_line_starts_the_chosen_command() {
    let cli = JGitCli {
        command: Commands::Clone(clone_cmd("https://h/x/tool.git", None)),
        git: "git".to_string(),
    };
    let mut r = cli.run();
    assert!(matches!(r, CommandRun::Clone(_)));
    let s = r.step(Event::Start);
    expect_exists(&s, "tool");

    let cli = JGitCli { command: Commands::Tree(TreeCommand { hide_branches: true }), git: "/usr/bin/git".to_string() };
    let mut r = cli.run();
    let s = r.step(Event::Start);
    assert!(matches!(s.next, Effect::CurrentDir));

    let cmd = CleanCommand { autoconfirm: true };
    let mut r = cmd.run(&cli);
    assert!(matches!(r, CommandRun::Clean(_)));
    let s = r.step(Event::Start);
    assert!(matches!(s.next, Effect::CurrentDir));

    let cmd = AutocompleteCommand { shell: Some(Shell::Fish), operation: Operation::Generate };
    let mut r = cmd.run(&cli);
    let s = r.step(Event::Start);
    assert_eq!(s.show, format!("{}\n", fish_script()));

    let cmd = BranchCommand { name: "b".to_string(), from: None };
    assert!(matches!(cmd.run(&cli), CommandRun::Branch(_)));
}

#[test]
fn clean_keeps_branches_of_locked_worktrees() {
    let mut r = CleanCommand { autoconfirm: true }.start();
    r.step(Event::Start);
    r.step(place("/r"));
    r.step(Event::Flag(true));
    r.step(git(0, ""));
    r.step(git(0, "  origin/x\n"));
    let s = r.step(git(0, "/r/.bare (bare)\n/r/x  abc1234 [x] locked\n"));
    expect_git(&s, "/r", &["branch", "--format=%(refname:short)"], false);
    r.step(git(0, "x\n"));
    let s = r.step(git(0, "/r/.bare (bare)\n/r/x  abc1234 [x] locked\n"));
    assert_eq!(said(&s), vec!["No branches to delete. Every branch is checked out on a worktree"]);
    expect_finish(&s);
}
