# sampleur

Core of a 64-pad MIDI sampler with Novation Launchpad MK2 support, with its
behaviour stated in contracts and proved.

- `src/` is the verified library: MIDI routing and MIDI learn (`midi`,
  `learn`), the Launchpad grid layout and LED/SysEx messages (`launchpad`),
  MIDI port selection (`ports`), pad transport and the playback core with
  quantised triggers (`transport`, `engine`), the ring buffer behind the
  effect delay lines (`ring`), channel layout helpers (`channels`), command
  parsing (`commands`) and preset naming rules (`preset`).
- `app/` is the desktop program around it: audio output and effects (floating
  point), file decoding and resampling, MIDI I/O, preset files and the
  interface commands.
- `tests/` exercises the library on concrete values.
