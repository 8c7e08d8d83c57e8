# cmake_tui_tool

The decisions of a terminal front end for CMake, proved with Verus: which toolchains a host
offers, how CMake is called with them, how its caches, targets and output are read, and what is
kept between runs.

- `src/` is the library. It works on plain values: what was read from disk, what programs
  printed, what the user chose. Functions state exactly what they return. Where that depends
  on the platform's reading of a path, the clock or the user's directories, they state what
  holds of every outcome, and a function beside them takes the outcome as an argument.
  `src/platform.rs` holds everything that is taken from the standard library and from other
  crates without proof.
- `tests/` runs the library on concrete values.
- `app/` is the program around it: files, processes, the environment and the terminal.

| Module | What it decides |
|---|---|
| `text`, `text_set`, `number`, `string_map` | texts, sorted sets, numbers and maps |
| `version`, `vendor` | what compilers print about themselves, and their file names |
| `toolchain` | toolchains, and the arguments that make CMake use them |
| `visual_studio`, `probe`, `search_path`, `scan` | which toolchains a host offers |
| `cache`, `targets` | what a build directory holds |
| `actions`, `commands`, `environment` | what a request runs, and with which arguments |
| `runtime`, `output`, `status` | running commands and what the user sees of them |
| `config` | settings, and the builds that are remembered of workspaces |
| `kits` | the list of toolchains, and its comparison with the kits of another tool |
