# flock

The ship-monitoring terminal of the Flock game, with its rules proved in Verus.

- `src/` is the verified library:
  - `text`: character classes, trimming, words, case folding, substring search and decimal notation;
  - `parser`: the command language (`status`, `help`, `door`, `power`, `repair`);
  - `input`: the line editor, its history and the queue of submitted commands;
  - `history`: the scroll-back of the terminal and the text of its view;
  - `commands`: what each command does to the rooms and doors, and what it replies;
  - `events`: overheating disasters and finished repairs;
  - `generator`: names of rooms and doors, the pairs of rooms that may share a door,
    the parts each kind of machine is built with, the machines of a room and their placement;
  - `window`: minimizing and dragging the terminal window;
  - `ship`, `search`, `random`: the ship's data, first-match search, and the random draws;
  - `laws`: properties that span several operations.
- `app/` is the Bevy application around it: windowing, rendering, input events,
  and the floating-point parts of the simulation (heat, oxygen, geometry).
- `tests/` runs the library on concrete cases.
