# file_backup

A desktop tool that copies a list of source folders into one destination
folder, each source under a numbered folder (`01_name`, `02_name`, ...).

- `src/` is the verified library (Verus): text helpers (`text`), progress and
  time texts (`utility`), the backup request and its files (`work`), the
  application state and one step of a running backup (`app`), what the window's
  controls do (`ui`), and icon decoding (`icon`).
- `app/` is the dioxus window, the threads that walk folders and copy files, the
  clock, the single-precision progress percentage, and the calls into the
  operating system; it hands every decision to the library.
- `tests/` runs the library on concrete values.
