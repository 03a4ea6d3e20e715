# croft

A per-project development tool. One `croft.toml` declares services, commands,
scripts, git hooks and agent files of a project; `croft` runs them and shows the
whole stack in a terminal dashboard.

- `src/` is the library: what the tool decides and computes, with its contract,
  checked by Verus. It reads no file, starts no process and paints nothing.
- `app/` is the program around it: the command line, files, processes and the
  terminal. It hands plain values to the library and does what comes back. Writing
  agent files (`app/agents.rs`) decides for itself what has drifted or collides.
- `tests/` runs the library on concrete values.

The library's modules:

| module | what it decides |
| --- | --- |
| `text`, `textmap`, `paths`, `durations`, `clock` | texts, sorted maps with text keys, paths, time as text |
| `globs`, `regexes`, `shell`, `tomldoc` | what is asked of globs, regular expressions, shell words and TOML documents |
| `config` | the configuration, its defaults and its validation, and the environment it makes up |
| `agents` | agent files: manifests, overrides, state and reports |
| `cache` | where clones are kept and how they are made |
| `hooks` | git hooks: which run, on which files, with which command |
| `container` | routing of services, and the devcontainer |
| `init` | the first configuration of a project |
| `install` | the steps of setting a project up, and the list that shows them |
| `cli` | `shell`, `watch` and `worktree` |
| `worktree` | slugs, offsets and identities of worktrees |
| `tui` | the dashboard: state, keys, panes, diffs, terminals and watchers |

What outside crates do is stated in the contracts of the few functions marked
`#[verifier::external_body]` or `assume_specification`; their doc comments name the
function called and what is taken on trust.
