# DLSS Updater

Finds the NVIDIA DLSS, Streamline and Reflex DLLs in installed games, compares
them with the official Streamline releases, and replaces or restores them. Every
file is backed up before it is replaced and checked again afterwards.

- `src/` is the library. It holds what the program decides: which files are
  managed, how versions compare, what a plan swaps, which step follows which in
  a swap, a backup, an import or a release, what an elevated plan may do, and
  what the window shows. All of it is verified with Verus. It does no input or
  output: where a step needs a file, the registry or the network, the library
  says what is to be done and is told what came of it.
- `app/` is the program around it: the window, the background thread, files,
  the network, and Windows itself.
- `tests/` runs the library on concrete values.

What is taken on trust is marked in `src/`: digests (`sha2`), time stamps
(`jiff`), the headers of executables (`object`), the clock, and the Unicode
tables behind letter case.

The window looks for `Inter-Regular.ttf`, `Inter-SemiBold.ttf`,
`JetBrainsMono-Regular.ttf` and `Phosphor.ttf` in `assets/fonts` beside the
program, and falls back on built-in fonts.
