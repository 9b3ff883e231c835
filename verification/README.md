# crc

`crc` compiles asynchronous functions in C sources to portable C11. It plans
where awaited children live, lays out the context of every task, checks the
layouts, and writes C that leaves the rest of a source as it was.

- `src/` is the compiler's logic, verified with Verus. Contracts are stated over
  spec functions that say what a plan, a layout or a generated text is. Files
  whose names end in `_laws`, `_soundness` or `_levels` hold what is proved of
  plans, layouts and emitted sources as a whole.
- `app/` is the command line, configuration files and the parser binding.
- `tests/` runs the library on small units.
