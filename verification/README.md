# rawdaw_app

The editing logic behind the rawdaw desktop DAW's editors, written in Verus
and verified: what the chord-loop, pattern, arrangement and inspector panes
decide before anything is drawn.

- `src/` — the verified library. Grid snapping and step arithmetic, sorted
  event lists (insert, delete, update, retime), drag clamping, the piano roll
  and drum step grid models, the arrangement lane, variant and section
  pickers, the dropdown value encodings with their decoders, and the small
  edits each inspector field commits. Each public function states its result
  in `ensures`; the laws that relate functions (round trips, orderings,
  tilings) are public proof functions next to them.
- `tests/` — executable tests of the library.
- `app/` — the float computations of the editors (tempo and dBFS readouts,
  drag previews, playhead and width percentages), which the verifier does not
  reason about.
