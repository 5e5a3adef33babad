# lupa

A desktop search: a daemon that indexes applications, files, mail and attachments, a launcher
window that searches them, and a preview window.

- `src/` is the library, written and verified in Verus: the rules of what is indexed and what is
  left out, the extraction of text, the socket protocol, the state of the daemon and of the
  launcher, ranking, and what opening a hit does. Each public function states in its contract
  what it returns or changes; the functions named `law_*` state what holds across functions.
- `tests/` runs the library on concrete values.
- `app/` is the program around it: files, processes, the socket, the index on disk and the
  windows.

What the library takes on trust of other crates stands in the functions marked
`external_body` and the items `assume_specification`, each with a comment that says what it
claims.
