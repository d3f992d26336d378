# typed_graph_cli

Bookkeeping and code generation for typed graph schemas written in BUILDscript.
A project holds schemas (one per version) and changesets between them; from the
schemas the tool generates Rust modules and Python packages for `typed_graph`,
json examples and the data of a documentation book, and svg drawings.

The library in `src/` is verified with Verus: every public function states what it
returns over plain mathematical values (texts as `Seq<char>`, generated files as a
map from paths to optional contents), and the laws of the library are proof
functions next to the code they speak of.

- `project` — schemas, changesets and the version tree; opening, integrity checks,
  renaming and linking; `missing_schemas` plans the schemas a changeset leads to.
- `generated_code` — the generated files and how they are written without deleting
  or overwriting what the user keeps.
- `rust_*`, `python_*` — the text of each generated file.
- `book_examples`, `book_pages` — json examples and the pages of the book.
- `listing`, `svg_labels`, `cli` — what the commands print and draw.

`app/` is the command line program around the library: argument parsing, reading
and writing files, parsing BUILDscript, rendering svg drawings.
