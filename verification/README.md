# ai-memory

Long-term memory for coding agents: a wiki of markdown pages under git, fed by
lifecycle hooks and kept tidy by a language model.

`src/` is the library. It holds the rules of the system as Verus code, with the
contracts proved:

- `active_project`, `shared`: the project that each agent is active in, with
  entries per session or per actor that expire and are capped;
- `bootstrap`, `bootstrap_run`: seeding memory from an existing project within a
  token budget, and the report on it;
- `consolidator`: rewriting the page of a session;
- `watcher`: which changed files lead to which pages being read again;
- `git`: when the wiki is committed, and what is read back of its history;
- `serve`: the order in which the server comes up;
- `hook`, `install_hooks`, `host`: what hooks send and print, and how they are
  configured (how the host agent is called is the operator's to say, in a file
  that `app/host.rs` reads);
- `page`, `paths`, `text`, `json`, `ids`, `clock`: what the others are built on.

The modules whose names end in `_laws`, and `active_project_course`, state what
holds over several calls.

What is called from outside the library is declared in `json`, `clock` and
`install_hooks`, each item with what is claimed of it.

`app/` connects the rules to files, git, the network and the clock. `tests/`
runs the library on concrete values.
