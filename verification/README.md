# grimoire

A store of markdown documents below a root directory, written in Verus.

- `src/` is the verified library: which files become nodes and what they
  hold, how node paths and the dependencies a document lists resolve, the
  table of contents built from a document's headings, the anchored heading
  HTML, the blocks of a document as comrak parses them, the dependency
  records to store, and the rows the node store reads and writes. Calls
  into `camino`, `id_arena`, `hashbrown`, `slug`, `comrak` and
  `pulldown-cmark` stand behind small trusted wrappers that state their
  results exactly or through named results; the one that reads the disk
  states what holds of every path it returns.
- `app/` holds what reads the disk, talks to the SQLite store, parses front
  matter and writes the HTML out with comrak's raw-HTML option, and hands
  plain values to the library.
- `tests/` runs the library on concrete inputs.
