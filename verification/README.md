# zomboid_mod_downloader

The logic of a desktop tool that queues Project Zomboid Steam Workshop mods
and downloads them with SteamCMD, written in Verus with its behaviour stated
in contracts and proved.

- `src/` — the verified library:
  - `text` — character-level string operations (trim, find, replace,
    whitespace collapsing, decimal numbers) and their specifications;
  - `pattern` — regular-expression searches through the `regex` crate, and
    byte-to-character position mapping;
  - `html` — reading Workshop pages: titles, collection children, required
    items, author, versions and poster address;
  - `workshop_url` — Workshop ids in user input and page addresses
    (through the `url` crate);
  - `workshop` — previews of items and collections, queue planning, and
    the decisions of the embedded Workshop browser;
  - `local_mods` — `mod.info` reading, local mod records and their order;
  - `download` — whether a download starts, the SteamCMD command line,
    progress messages, what follows SteamCMD's exit, and what is done with
    each downloaded item (which folders move, which records are written);
  - `settings` — settings defaults and path validation;
  - `browser_script` — the script injected into the Workshop browser.
- `tests/` — tests run against the compiled library.
- `app/` — the desktop shell (window, commands, SQLite store, files,
  SteamCMD process, page fetches), which calls the library for every
  decision.
