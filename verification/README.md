# rusty

A daily terminal to-do list. The list belongs to one calendar day: a new day
starts empty, or with the open tasks of the previous day that you choose to
carry over.

- `src/` is the verified library: the task list and its edits (`state`), the
  list screen's key handling (`ui`), the carry-over screen (`rollover`), the
  command-line rules (`cli`), text helpers (`text`), today's date (`clock`),
  and the properties proved across them (`laws`).
- `app/` is the program: argument parsing, the JSON state file, the terminal
  and drawing.
- `tests/` runs the library on concrete lists and key sequences.
