# jgit

A git wrapper that manages repositories whose worktrees map onto branches:
`jgit clone` makes a bare repository with a worktree layout, `jgit branch`
adds a worktree named after a branch, `jgit clean` removes worktrees whose
branches are gone from the remote and branches no worktree checks out,
`jgit tree` draws the repositories and worktrees below the current
directory, and `jgit autocomplete` prints, installs or removes the shell
snippet for completions.

## Layout

- `src/` is the library, verified with Verus. Each command is a state machine
  (`clean`, `branch`, `clone`, `tree`, `autocomplete`, dispatched by
  `commands`): a step takes what the last effect gave back and answers with
  the lines to print, the text to show and the next effect (run git, read a
  directory, ask a question, write a file, ...). The contracts state each
  step exactly over spec functions; the laws (`law_*` proof functions) state
  what holds across steps, such as that `clean` only removes worktrees whose
  branch is gone and whose status is clean, or that uninstalling takes back
  what installing added.
  - `text`, `listing`: reading git's output (lines, trimming, picking branch
    names and worktree paths).
  - `paths`, `order`: Unix paths as components, joining, parents, prefixes,
    and the order in which paths sort.
  - `dirtree`: the tree that `jgit tree` draws, rendered by `termtree`.
  - `session`: the effects, events and steps shared by the commands.
- `app/` is the program around it: clap's command line, and the loop that
  performs each effect (processes, files, the terminal) and hands the result
  back to the library.
- `tests/` runs the library on concrete inputs, and compares the path and
  text functions with the standard library's.
