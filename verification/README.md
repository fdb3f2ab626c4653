# gitopiary

A terminal browser for git worktrees and jj workspaces. The left panel lists the
worktrees of every tracked repository with their status and pull requests; the
right panel runs a shell in the selected one.

The crate is a verified library with a program around it.

- `src/` is the library. Its functions state what they do in `requires` and
  `ensures`, and Verus proves it; what it takes from other crates stands behind
  small functions whose contracts are believed. Where the outside world is
  needed, one function says what to ask or do, and another takes the answer. The
  library itself asks for the user's home and cache directories only, and claims
  nothing of the answers.
- `app/` is the program: the event loop, processes, files, the screen.
- `tests/` runs the library.

## Modules of the library

| module | what it holds |
| --- | --- |
| `app` | the application, its effects, and how it reacts to events |
| `events` | events, and how keys, the mouse and pasted text are handled |
| `guarantees` | what holds of the application whatever happens |
| `state` | the data that is shown, moving the selection, refreshing |
| `vcs` | discovery of worktrees with both backends |
| `git`, `jj`, `github` | what is made of what git, jj and GitHub report |
| `cache` | what is kept between runs |
| `pty` | which terminal sessions run |
| `ui` | what a frame shows, and where |
| `edit`, `paths`, `text`, `bytes`, `num` | text fields, paths, text, bytes and arithmetic |

Paths are bytes with the meaning that Unix gives them, and need not be text.
Where one becomes text, as in the arguments of jj, what is not UTF-8 in it becomes
replacement characters.
