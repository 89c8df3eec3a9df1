use std::path::{Path, PathBuf};

use jgit::dirtree::DirTree;
use jgit::order::{path_less, sort_paths};
use jgit::paths::{components_of, join_of, parent_of, same_path, strip_prefix_of};
use jgit::tree::{file_name_of, repo_of_bare, worktree_name, TreeCommand};

const SAMPLES: [&str; 16] = [
    "", "/", ".", "..", "a", "a/b", "/a/b/", "./a", "a/./b", "a//b", "../x", "/..", "a/..",
    "./", ".hidden/x", "/home/u/repos/r",
];

fn std_components(p: &str) -> Vec<String> {
    Path::new(p)
        .components()
        .map(|c| c.as_os_str().to_string_lossy().into_owned())
        .collect()
}

#[test]
fn components_match_std() {
    for p in SAMPLES {
        assert_eq!(components_of(p), std_components(p), "{p:?}");
    }
}

#[test]
fn parent_matches_std() {
    for p in SAMPLES {
        let expected = Path::new(p).parent().map(|q| q.to_string_lossy().into_owned());
        assert_eq!(parent_of(p), expected, "{p:?}");
    }
}

#[test]
fn join_matches_std() {
    for base in ["", "/", "a", "a/", "/x/y"] {
        for rel in ["b", "/c", "b/c", ""] {
            let expected = Path::new(base).join(rel).to_string_lossy().into_owned();
            assert_eq!(join_of(base, rel), expected, "{base:?} + {rel:?}");
        }
    }
}

#[test]
fn strip_prefix_matches_std() {
    let pairs = [
        ("/a/b/c", "/a"),
        ("/a/b/c", "/a/b/c"),
        ("/a/b/c", "/a/"),
        ("/a/bc", "/a/b"),
        ("a/b", "/a"),
        ("/a//b", "/a"),
        ("./a/b", "."),
        ("a/./b/c", "a/b"),
        ("/home/u/repo/main", "/home/u/repo"),
    ];
    for (p, base) in pairs {
        let expected = Path::new(p)
            .strip_prefix(base)
            .ok()
            .map(|q| q.to_string_lossy().into_owned());
        assert_eq!(strip_prefix_of(p, base), expected, "{p:?} - {base:?}");
    }
}

#[test]
fn same_path_matches_std() {
    let pairs = [("a/b", "a//b/"), ("a/b", "a/c"), ("./a", "a"), ("/a", "a"), ("a/./b", "a/b")];
    for (a, b) in pairs {
        assert_eq!(same_path(a, b), Path::new(a) == Path::new(b), "{a:?} {b:?}");
    }
}

#[test]
fn file_name_matches_std() {
    for p in SAMPLES {
        let expected = Path::new(p).file_name().map(|n| n.to_string_lossy().into_owned());
        assert_eq!(file_name_of(p), expected, "{p:?}");
    }
}

#[test]
fn sort_paths_matches_pathbuf_sort() {
    let items = ["b", "a/c", "a", "a-b", "a/b", "A", ".", "x/y/z", "x/y", "ab", "a.b"];
    let mut expected: Vec<PathBuf> = items.iter().map(PathBuf::from).collect();
    expected.sort();
    let expected: Vec<String> = expected.iter().map(|p| p.to_string_lossy().into_owned()).collect();
    let got = sort_paths(items.iter().map(|s| s.to_string()).collect());
    assert_eq!(got, expected);
}

#[test]
fn path_less_is_path_order() {
    assert!(path_less("a/b", "a-b"));
    assert!(!path_less("a-b", "a/b"));
    assert!(path_less("a", "a/b"));
    assert!(!path_less("a//b", "a/b"));
    assert!(!path_less("a/b", "a//b"));
    assert_eq!(path_less("a/b", "a-b"), Path::new("a/b") < Path::new("a-b"));
}

#[test]
fn path_components_of_repositories() {
    assert_eq!(TreeCommand::path_components("."), Vec::<String>::new());
    assert_eq!(TreeCommand::path_components("work/app"), vec!["work".to_string(), "app".to_string()]);
    assert_eq!(TreeCommand::path_components("app"), vec!["app".to_string()]);
}

#[test]
fn repositories_and_worktree_names() {
    assert_eq!(repo_of_bare("/home/u/work/app/.bare", "/home/u"), "work/app");
    assert_eq!(repo_of_bare("/home/u/.bare", "/home/u"), ".");
    assert_eq!(worktree_name("/home/u/app/feat/x", "/home/u/app"), "feat\u{2215}x");
    assert_eq!(worktree_name("/elsewhere/wt", "/home/u/app"), "\u{2215}elsewhere\u{2215}wt");
}

fn comps(v: &[&str]) -> Vec<String> {
    v.iter().map(|s| s.to_string()).collect()
}

#[test]
fn dir_tree_renders_like_termtree() {
    let mut t = DirTree::new(".".to_string());
    t.add_path(&comps(&["work", "app"]));
    t.add_path(&comps(&["work", "app", "main"]));
    t.add_path(&comps(&["work", "lib", "(no worktrees)"]));
    t.add_path(&comps(&["solo"]));
    t.add_path(&comps(&["work", "app", "main"]));

    let mut expected = termtree::Tree::new(".".to_string());
    let mut work = termtree::Tree::new("work".to_string());
    let mut app = termtree::Tree::new("app".to_string());
    app.push(termtree::Tree::new("main".to_string()));
    let mut lib = termtree::Tree::new("lib".to_string());
    lib.push(termtree::Tree::new("(no worktrees)".to_string()));
    work.push(app);
    work.push(lib);
    expected.push(work);
    expected.push(termtree::Tree::new("solo".to_string()));

    assert_eq!(t.render(), expected.to_string());
    assert_eq!(t.len(), 7);
}

#[test]
fn adding_a_path_twice_adds_nothing() {
    let mut t = DirTree::new(".".to_string());
    t.add_path(&comps(&["a", "b"]));
    let once = t.render();
    let n = t.len();
    t.add_path(&comps(&["a", "b"]));
    assert_eq!(t.render(), once);
    assert_eq!(t.len(), n);
    assert_eq!(n, 3);
}
