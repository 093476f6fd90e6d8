# benilla

The client-side logic of a classic-era game client, verified with Verus.

- `src/` — the library, every item verified: the battleground and meeting-stone wire formats
  (`battlefield`, `meeting_stone`, `wire`), the outbound world-packet queue (`world_writer`),
  the chat-channel and social verbs of the UI script engine (`script`, `channel`, `social`,
  `tabard`), the joined-channel slots and send types (`channel_slots`), the dialog verbs' state
  (`dialog`), the quest-status query planner (`quest_query`), the chat cache file's writer and
  reader (`chat_cache`) with its round-trip law (`chat_cache_laws`) and its login step
  (`chat_login`), the chat log's line
  composition (`chat_line`), the deferred-realization table (`parked`), and the text operations
  they share (`text`).
- `tests/` — the library's tests.
- `app/` — the glue around it: the Lua globals, the chat cache's file reading and writing and
  login restore, the dialog verbs' frame glue, the world writer's error type, and the
  process-wide material table.
