# NeonSnake

A neon-styled snake game on a 24 x 24 board, with bombs laid out in hazard
patterns that change each round, pick-ups (shield, double score, slow-down),
level themes that speed the game up as the score grows, an optional challenge
mode and a five-entry high-score table.

## Layout

- `src/` is the game's rules as a verified library, each function with its contract and proof:
  - `grid`: cells, headings and the board;
  - `kinds`: phases, modes, challenges, themes, hazard patterns, cues and pick-ups;
  - `pace`: step delay and bomb count by score;
  - `hazards`: the fixed bomb slots of each pattern and round;
  - `scores`, `score_file`: the high-score table and its text file;
  - `wav`: the WAV container of the generated sounds;
  - `random`: the one call into macroquad's random generator;
  - `game`: the game state, a round, one step of the snake, one frame,
    the keys, and the screenshot poses.
- `tests/` runs the library on concrete games.
- `app/` is the macroquad program around it: the window, the frame loop,
  keys, drawing, particles, sound synthesis and the score file on disk.

Times inside the library are whole microseconds; the program converts the
frame time before handing it in.
