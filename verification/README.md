# git_worktree_smart

The logic of `wt`, a zero-config Git worktree manager, as a library verified
with Verus, and the command-line program around it.

- `src/` is the verified library:
  - `text.rs` and `paths.rs`: character-level text and Unix path arithmetic
    (`Path::file_name`, `parent`, `join`, `components`, `starts_with`).
  - `git/parse.rs`: the parsers of `git worktree list --porcelain`,
    `git status --porcelain`, `git rev-list --count` and
    `git worktree prune --dry-run --verbose`, and the worktree path rules.
  - `git/command.rs`, `git/ops.rs`: what a git invocation's outcome means, and
    the arguments of the git commands that are run.
  - `git/probe.rs`: the ahead/behind dialogue with git.
  - `git/resolve.rs`: resolving a query to a worktree (enclosing path, exact,
    substring, fuzzy).
  - `cmd/`: the decisions of `wt add`, `wt remove`, `wt list` and `wt prune`;
    `add` and `remove` are dialogues whose each step the library decides.
  - `output/human.rs`: the cells of the worktree table.
  - `laws.rs`: properties that span several functions.
- `app/` runs git, reads the filesystem and prints: it asks the library what
  to do and hands it back what it found.
- `tests/` exercises the library on concrete values.
