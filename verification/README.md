# gitui

A terminal user interface for git. The library (`src/`, verified with Verus)
holds the logic; `app/` is the terminal front end around it.

- `git`, `state`: the repository status model and the application state.
- `path_order`: paths ordered and identified component by component, as
  `std::path::Path` does on Unix, with proofs that this is a strict total order.
- `status`: merging git's worktree and index changes into one list of changed
  files, one entry per path, in path order.
- `worker`: scheduling of background git operations (one job per operation at a
  time, requests coalesced).
- `input_config`: key bindings.
- `ui`: what the screen shows (file list, diff pane, message line) as plain
  widget descriptions; `app/` draws them with ratatui.
- `app`, `gitui`: handling of git reports, actions and key events.

`app/` reads keys (crossterm), runs git (gix) on a thread pool (rayon,
crossbeam) and draws (ratatui).
