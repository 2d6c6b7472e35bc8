# taskflow_core

A task manager that keeps a local SQLite store in two-way sync with Google
Tasks, with quick add in plain language ("Buy milk tomorrow at 5pm"),
recurring tasks, local reminder times (only the due date syncs), and the
decisions of a desktop app.

The library in `src/` holds the logic, each function with a contract that
Verus proves:

- `calendar`, `text`, `parser`: dates, times, words and lines; the
  quick-add reader.
- `models`, `recurrence`, `notes`: tasks and lists, next occurrences of
  recurring tasks, cleaning reminder lines out of notes.
- `sync`, `google`, `token`, `oauth`: what each remote or local change does
  during a sync, the API's addresses, queries and retry policy, access and
  refresh tokens, the sign-in redirect.
- `db`: how tasks and lists are written to and read from table rows (a
  stored task reads back as itself).
- `order`, `ui`, `layout`, `app_state`: stable ordering by sort keys, the
  desktop app's view decisions, what each view lays out (title, sections,
  empty message, sync badge), and the app as a state machine of messages
  and effects.
- `reminders`: which reminders are due, each shown once a day.

`app/` is the background service (reminder and sync loops) built on the
library: SQLite, HTTP, the keyring, notifications and the browser sign-in.
It has no window: the desktop app's views and state machine stand in the
library (`layout`, `ui`, `app_state`) for a window toolkit to drive.
