# keystone_blocks

The core of a visual block-programming editor, with machine-checked
contracts and laws.

- `src/ast.rs` — the block language (statements, expressions, types) and
  the mathematical view of a statement tree.
- `src/tree.rs` — paths into the tree and the edits they address, as spec
  functions on the view.
- `src/utils.rs` — removing and inserting statements by path, ancestry of
  paths, statement labels, and type inference for expression slots.
- `src/code.rs` — moving a statement: path adjustment and the move itself.
- `src/renderer.rs` — drop handling, the type each slot expects, operator
  choices.
- `src/visual.rs` — rendering a program as code.
- `src/colorizer.rs` — block colours.
- `src/laws.rs` — properties across calls: insert and remove undo each
  other, a move lands where it was asked to and keeps the number of
  statements, the ancestor relation is a strict order, the code of a
  concatenation, the shape of a statement's code, and one more indent level
  shifting every line.

`app/` is the Bevy/egui program around the library. It calls the language
crate's type checker and formats float literals, and hands the results to
the library.
