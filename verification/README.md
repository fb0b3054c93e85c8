# lingchat

The rules of the LingChat companion app, written in Verus and proved: script
and chapter validation, the event schema of the script editor, the chapter
graph, the tool-permission matrix and the tool settings, the decisions of the
chat tools (commands, file deletion, web search, notes, scenes, characters),
the role-package import course, and the helpers of the TTS adapters.

## Layout

- `src/` — the verified library. Every public function states what it returns
  in `ensures`, over spec functions, `Seq`, `Set` and `Map`. Laws that relate
  several calls stand as public proof functions named `law_*`, among them:
  - permissions: a role gets tools only through its group; initialising the
    same roles twice changes nothing;
  - settings: each switched tool is allowed exactly when its switch is on;
  - the import course: a stopped import stays stopped, a failure cleans up;
  - the web search: hidden sources never reach the formatted text;
  - deletion checks: surrounding text and upper-casing never hide a deletion.
  Calls into std and outside crates (`uuid`, `chrono`) stand behind small
  trusted wrappers whose doc comments say what is assumed of them.
- `tests/` — tests on concrete values, run against the compiled library.
- `app/` — the parts that do I/O: reading folders, TOML and JSON files,
  HTTP calls of the web search and the workshop, and the loop that drives the
  import course. It hands the library plain values and takes plain values
  back.
