# calabaza_tales

The game logic of CalabazaTales, a quest and character-progression plugin for the
Pumpkin Minecraft server, written in Verus with its behaviour stated in contracts and
proved.

- `src/` — the verified library:
  - `text` — identifier normalization, decimal rendering, substring search;
  - `model` — quests, safe zones, player state and their views;
  - `quests` — catalogue validation and quest status;
  - `player` — accepting, claiming, cancelling quests, recording progress, spending
    attribute points;
  - `progression` — XP awards and level-ups;
  - `app` — the game state shared by all players (`App`) and its operations;
  - `ui` — journal pages, quest details and the answers to Bedrock forms;
  - `combat` — armor estimates; `ipc` — inter-plugin messages: their fields, answers and JSON;
  - `laws` — properties that span several operations, proved.
- `tests/` — tests of the library on concrete values.
- `app/` — the plugin around the library: Pumpkin event handlers and commands, menu
  rendering, configuration and save files, and the floating-point rules (XP curve,
  attribute multipliers, safe-zone containment).
