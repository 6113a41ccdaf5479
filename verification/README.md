# windows_event_log

A Windows Event Log source whose decisions are verified with Verus: when a
channel is subscribed, rebuilt, backed off or skipped, where it resumes, which
events are sent, what is stored as its position, and which names a rendered event
gets.

- `src/` is the library. It makes no system call: each machine in it takes what
  the last call answered and says what to do next.
- `app/` makes the calls: the event log and the service manager, files, timers
  and the event pipeline.
- `tests/` runs the library against made-up hosts.

| Module | What it holds |
| --- | --- |
| `subscription`, `delivery` | one pull over all channels, and what every pull keeps |
| `channel` | one channel's subscription, position and gap history |
| `recovery` | backoff, the resume ladder, batch sizes, episodes, gaps |
| `win32_errors` | what an error code means for a read or a subscribe |
| `query` | the queries and flags of a subscribe |
| `checkpoint`, `status`, `atomic_file` | stored positions, the status snapshot, whole-file writes |
| `metadata`, `rendering_info` | names and messages of an event |
| `cache`, `table`, `format_cache`, `shared_cache`, `sid_resolver` | publisher and account caches |
| `source`, `service` | the run loop, acknowledgements, and the service's life |
| `config`, `schema`, `error` | settings, the fields of an event, errors |
| `text`, `time` | strings and times |

What is taken on trust of other crates stands in `time`, `text`, `cache` and
`rendering_info`, each item with a comment that says what it claims.
