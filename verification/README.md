# RoJoin

RoJoin starts Roblox games from a small program of its own: it signs in with a
code, lists friends, games and servers, starts the game through Sober or the
Windows client, keeps several accounts apart, and plays macros.

The library under `src/` is written in Verus. It holds everything that decides
or computes, and each function states in its contract what it returns.

- `text`, `number`, `ratio`, `order`, `clock`, `json`: text, decimal numbers,
  rounding, sorting, dates and JSON words.
- `roblox`: the service's addresses, request bodies, retries and replies.
- `launcher`: join links, Sober's cookie jar and settings, Windows launch links.
- `macroeng`: keys, macros, the engine that plays them, hotkeys and focus.
- `desktop`: what each page shows, what a press does, and what is written down.

`tests/` runs the library on concrete values. `app/` is the program around it:
files, the network, input devices and a front end that is driven by lines.
