# ifnd

An interactive finder for Windows: type `a <text>` to fuzzy-search the
runnable files of the start menus, the desktops and `PATH`, or `f <text>` to
fuzzy-search the files below the current directory; Enter starts or prints
the marked file.

- `src/` is the verified library: the ranking and paging of fuzzy matches
  (`filtered_list`, `matcher`), the depth-first and breadth-first directory
  walks with the proofs of the order in which they hand out files
  (`search/fs`), the decisions of the selection screen (`selection_gui`),
  the layout of result rows (`list_view`), the file kinds and the check
  that parselnk can read a link's bytes (`files`), the
  plain substring picker and choice reading (`start_menu`) and the text
  helpers (`text`).
- `app/` is the program around it: terminal input and drawing, the file
  system, the background threads and starting processes.
- `tests/` runs the library on concrete values.
