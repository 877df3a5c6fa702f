# gmod_wstool

The logic of a Garry's Mod workshop tool, verified with Verus.

- `src/` is the verified library: background-load bookkeeping (`async_load`),
  ignore patterns (`ignores`), Steam bootstrap decisions as a state machine
  (`steam::bootstrap`), launching Steam (`steam::launch`), callback bookkeeping
  (`steam::callbacks`), addon packing decisions and the `.gma` archive
  (`steam::pack`), upload and item-creation state (`steam::update`), and the
  string operations they rest on (`text`).
- `app/` is the program around it: threads, the Steam client, processes, the
  file system and widgets.
- `tests/` runs the library on concrete values.
