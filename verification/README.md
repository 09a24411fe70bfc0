# worktree_tool

The verified core of a keyboard-first manager for git worktrees: it lists
the worktrees of a repository with their branch and status, creates,
removes and prunes them, and drills into one worktree to stage, discard,
commit, browse history and manage branches, stashes and remotes.

Everything under `src/` is checked by Verus against its `requires` /
`ensures` contracts:

- `engine/`, `model`, `git`: parsers of git's machine formats (worktree
  and status porcelain, `-z` status, unified diffs, logs, branch, stash
  and remote listings), the argv of every git command the tool runs, and
  (`engine/flow`) the runs of several commands: which runs next given
  what the last one gave, down to merge/rebase aborts after conflicts,
  chunked staging and the unwinding of a failed history rewrite.
- `store`, `wc_store`, `wc_actions`, `history_store`, `history_actions`,
  `branch_store`: the state of the home list and of the detail sections,
  with each asynchronous operation split into a start (the command to
  run) and a completion (what its result does to the state).
- `shell`, `create_form`, `dialogs`, `text_input`: key routing, dialogs
  and the one-line and multi-line text inputs.
- `views/`: what the views show, as text and flags (rows, badges,
  headers, diff pane rows with the render cap).
- `terminal`, `feedback`, `paths`, `text`, `bytes`: terminal detection
  and settings, the bug-report URL, paths and text helpers.

`app/` is a small command-line front end that runs git, reads and writes
files and hands the library plain values.
