# due

The library of a desktop reminder application, verified with Verus.

- `src/` — the library. `calendar` models dates and times of day and makes
  the calls into chrono; `text` reads and writes numbers and trims text;
  `reminder` is the reminder model; `time` reads times from text and decides
  when reminders fire; `ui` holds what the list and the edit panel show and
  the edits they make; `store` is the reminder list with its operations;
  `popup`, `config` and `notification` hold the pop-up actions, the settings
  and the check made before a notification.
- `tests/` — tests of the library.
- `app/` — the program around it: files, logging, system notifications and
  the once-a-second check for due reminders.
