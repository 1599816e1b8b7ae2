# zed_cl

Common Lisp support for the Zed editor: a language server, a Jupyter kernel registration and
an editor extension, which all talk to one running Lisp, the master REPL.

The library under `src/` holds what these programs compute and decide, with contracts that
Verus proves:

- `text`, `table`: texts and small tables
- `tokens`, `sexp`, `protocol`: s-expressions, requests to the master REPL and its replies
- `frame`: the frames in which they travel
- `master_repl`: connecting, starting the REPL, and sending a request, step by step
- `config`, `connection`, `kernelspec`, `json`: profiles, paths, Jupyter's files
- `document`, `workspace`, `uri`, `system`: what the editor has open, and where
- `documentation`, `hover`, `snippet`, `completion`, `definition`: the language server's answers
- `label`, `extension`: the editor extension

`app/` is the ordinary Rust around it: sockets, processes, files and the editor's protocols.
Where something has to be done outside, a function of the library names the next step and
takes what came of the last one.
