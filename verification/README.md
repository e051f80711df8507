# dungmul

The rules of a small top-down walking game on a tile map, verified with Verus.

- `src/` is the verified library: clamped rectangles (`rect`), velocities
  (`velocity`), the player (`player`), camera placement (`camera`), collision
  detection and push-back (`collision`, `world`), reading the tile map text
  (`text`, `map`), arrow-key steering (`input`), one frame of play (`game`) and
  what a frame draws (`scene`).
- `app/main.rs` is the SDL2 program around it: window, textures, fonts, input
  events, drawing and frame timing. It reads its pictures, font and map from
  `asset/resource/` at run time.
- `tests/` exercises the library on concrete values.
