# jump

`jump` opens the files that links lead to, in an editor inside tmux, and writes Markdown references
to symbols from what a language server says of them.

- `src/` is the library. Its functions are verified with Verus: their contracts say what they return
  for every input that they take. The exceptions are a few wrappers around calls into `serde_json`
  and `lsp_types`, whose contracts are taken on trust.
- `app/` is the program around it: the command line, files, processes, the desktop and the log. It
  carries out the actions that the library asks for and hands back what came of them.
- `tests/` runs the library on concrete values.

The commands are step machines: `app::locate` finds the project of a link, `app::resolve` the file,
`app::session` the session and the editor, and `app::query` holds the conversation with a language
server. Each takes an event and says what to do next.

JSON is read and written by `serde_json`, and the parameters of the requests to a language server
are written by `lsp_types`. What is taken on trust of these two stands in `src/json.rs` and
`src/lsp/params.rs`, each item with a comment that says what it claims.
