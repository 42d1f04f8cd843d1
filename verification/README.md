# videdit

The logic of a small desktop video trimmer, verified with Verus: the FFmpeg
command lines and filter graphs it builds (cutting, merging, dubbing, the
radio and VHS effects, burned-in subtitles), subtitle clipping and
remapping with SRT rendering, export planning, the screen- and
microphone-recording state machines, and the decoding of captured WAV
samples.

Times are integer milliseconds and effect parameters are fixed-point
decimals with eight places; where a parameter falls exactly halfway between
two printed values, the printed digit follows the side its floating-point
evaluation lands on (`ties`). A dubbed track's volume is carried as the bits
of its floating-point value. Every string the library produces is stated
exactly in its contracts.

- `src/` — the verified library (`text`, `ties`, `vhs`, `radio`, `paths`,
  `timeline`, `export`, `plan`, `probe`, `capture`, `recording`, `mic`).
- `tests/` — tests of the library on concrete values.
- `app/` — the Tauri application around it: commands, process and file
  handling, WASAPI capture, and the JSON types of the front end.
