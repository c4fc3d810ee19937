# vsrg_renderer

A renderer and playback engine for vertical scrolling rhythm game maps (Quaver `.qua`
files), built around a library whose rules are proved with Verus.

- `src/` is the verified library:
  - `timing`: looking up the object active at a time and sorting objects by start
    time (times are integer keys ordered as the times are);
  - `map`: key counts, lane columns, timing group assignment, beat-snap selection,
    cumulative scroll-velocity positions, scroll-speed-factor spans and the position
    history of hit objects;
  - `constants`: the default timing group, the beat-snap table and judgement names;
  - `logger`: log lines (exactly) and their timestamps (the text chrono writes for
    the given second, or for the epoch when chrono has no date for it, and its layout);
  - `audio`: the playback decisions of the audio manager.
- `app/` is the program: reading maps with serde, the floating-point time and screen
  arithmetic, drawing with macroquad and audio with rodio.
- `tests/` runs the library on concrete values.

The program takes the directory of a song and the flags `--fullscreen`, `--rate`,
`--volume`, `--mirror`, `--no-sv`, `--no-ssf`, `--debug` and `--no-ui`.

The program draws the receptors, timing lines and notes and shows debug text; it has
no autoplay, no hit judgements and no combo or accuracy display, so `--no-ui`
currently hides nothing.
