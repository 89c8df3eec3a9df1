use jgit::branch::{complete_branches, completion_git_args, BranchCommand};
use jgit::clean::CleanCommand;
use jgit::git::{join_strings, Git};
use jgit::text::{answer_agrees, contains_str, decimal_string, lines_of, remove_all_of, trimmed};
use jgit::tree::TreeCommand;

fn strings(v: &[&str]) -> Vec<String> {
    v.iter().map(|s| s.to_string()).collect()
}

#[test]
fn decimal_string_writes_numbers() {
    assert_eq!(decimal_string(0), "0");
    assert_eq!(decimal_string(7), "7");
    assert_eq!(decimal_string(10), "10");
    assert_eq!(decimal_string(1234567), "1234567");
    assert_eq!(decimal_string(usize::MAX), usize::MAX.to_string());
}

#[test]
fn remove_all_of_matches_str_replace() {
    let cases = [
        ("abcabc", "abc"),
        ("aaa", "aa"),
        ("hello", ""),
        ("", "x"),
        ("x#> a\n#< end\ny", "#> a\n#< end"),
        ("ababab", "bab"),
        ("héllo wörld héllo", "héllo"),
    ];
    for (s, p) in cases {
        assert_eq!(remove_all_of(s, p), s.replace(p, ""), "{s:?} without {p:?}");
    }
}

#[test]
fn contains_str_matches_str_contains() {
    let cases = [("abc", "b"), ("abc", "d"), ("", ""), ("abc", ""), ("a", "abc"), ("xxabcx", "abc")];
    for (s, p) in cases {
        assert_eq!(contains_str(s, p), s.contains(p));
    }
}

#[test]
fn lines_of_matches_str_lines() {
    let cases = ["", "a", "a\n", "a\nb", "a\r\nb\r\n", "\n\n", "a\rb\n", "x\n\ny"];
    for s in cases {
        let expected: Vec<String> = s.lines().map(|l| l.to_string()).collect();
        assert_eq!(lines_of(s), expected, "{s:?}");
    }
}

#[test]
fn trimmed_matches_str_trim() {
    let cases = ["", "  a  ", "\t\na b\r\n", "\u{3000}x\u{a0}", "plain"];
    for s in cases {
        assert_eq!(trimmed(s), s.trim());
    }
}

#[test]
fn answers_that_agree() {
    assert!(answer_agrees("y"));
    assert!(answer_agrees("  Yes\n"));
    assert!(answer_agrees("YES"));
    assert!(!answer_agrees(""));
    assert!(!answer_agrees("n"));
    assert!(!answer_agrees("no y"));
    assert!(!answer_agrees("\n"));
}

#[test]
fn local_branches_are_trimmed_non_blank_lines() {
    let out = "main\n  feat/one  \n\n   \nfix-2\n";
    assert_eq!(CleanCommand::get_local_branches(out), strings(&["main", "feat/one", "fix-2"]));
    assert_eq!(CleanCommand::get_local_branches(""), Vec::<String>::new());
}

#[test]
fn worktree_branches_come_from_brackets() {
    let out = "/r/.bare                 (bare)\n\
               /r/main      1a2b3c4 [main]\n\
               /r/feat/x    5d6e7f8 [feat/x]\n\
               /r/detached  9a9a9a9 (detached HEAD)\n\
               /r/odd [a] b 1234567 [odd]\n\
               /r/x  abc1234 [x] locked\n\
               /r/gone 7654321 [old] prunable\n\
               /r/held 1111111 (detached HEAD) locked\n";
    assert_eq!(CleanCommand::get_worktree_branches(out), strings(&["main", "feat/x", "odd"]));
    assert_eq!(
        CleanCommand::get_checked_out_branches(out),
        strings(&["main", "feat/x", "odd", "x", "old"])
    );
}

#[test]
fn remote_branches_drop_origin_and_aliases() {
    let out = "  origin/HEAD -> origin/main\n  origin/main\n  origin/feat/x\n  upstream/other\n";
    assert_eq!(CleanCommand::get_remote_branches(out), strings(&["main", "feat/x"]));
}

#[test]
fn worktrees_skip_the_bare_entry() {
    let out = "worktree /home/u/r/.bare\nbare\n\n\
               worktree /home/u/r/main\nHEAD abc\nbranch refs/heads/main\n\n\
               worktree /home/u/r/my wt\nHEAD def\ndetached\nlocked reason here\n\n";
    assert_eq!(
        TreeCommand::get_worktrees(out),
        strings(&["/home/u/r/main", "/home/u/r/my wt"])
    );
    assert_eq!(TreeCommand::get_worktrees(""), Vec::<String>::new());
}

#[test]
fn branch_completions_filter_by_prefix() {
    let out = "main\nfeat/a\nfeat/b\n  fix\n";
    assert_eq!(complete_branches(out, "feat"), strings(&["feat/a", "feat/b"]));
    assert_eq!(complete_branches(out, "f"), strings(&["feat/a", "feat/b", "fix"]));
    assert_eq!(complete_branches(out, "zzz"), Vec::<String>::new());
    assert_eq!(complete_branches("a\n\nb", ""), strings(&["a", "", "b"]));
    assert_eq!(completion_git_args(), strings(&["branch", "--format=%(refname:short)"]));
}

#[test]
fn typing_more_narrows_completions() {
    let out = "feat/a\nfeat/b\nfix\nfeature\n";
    let wide = complete_branches(out, "fe");
    let narrow = complete_branches(out, "feat/");
    let expected: Vec<String> = wide.iter().filter(|b| b.starts_with("feat/")).cloned().collect();
    assert_eq!(narrow, expected);
    assert_eq!(narrow, strings(&["feat/a", "feat/b"]));
}

#[test]
fn main_branch_and_source_choice() {
    assert_eq!(BranchCommand::get_main_branch("refs/heads/main\n"), "main");
    assert_eq!(BranchCommand::get_main_branch("  develop \n"), "develop");
    assert_eq!(BranchCommand::get_branch_interactive("\n", "main"), "main");
    assert_eq!(BranchCommand::get_branch_interactive("  dev \n", "main"), "dev");
    let given = BranchCommand { name: "feat".to_string(), from: Some("base".to_string()) };
    assert_eq!(given.get_from_branch("main", "other"), "base");
    let asked = BranchCommand { name: "feat".to_string(), from: None };
    assert_eq!(asked.get_from_branch("main", ""), "main");
    assert_eq!(asked.get_from_branch("main", "other\n"), "other");
}

#[test]
fn git_command_line() {
    let git = Git::new("git".to_string(), "/home/u/repo".to_string());
    assert_eq!(git.executable, "git");
    assert_eq!(git.cwd, "/home/u/repo");
    let args = strings(&["worktree", "add", "-B", "x", "x"]);
    assert_eq!(git.command_line(&args), "/home/u/repo $ git worktree add -B x x");
    assert_eq!(join_strings(&Vec::new(), ", "), "");
    assert_eq!(join_strings(&strings(&["a", "b", "c"]), ", "), "a, b, c");
}
