# drumbox64

A 7-track / 16-step drum pattern sequencer with swing, four SID synthesis
kits, MIDI output, MIDI clock in/out, and USBSID-Pico (ASID) playback.

`src/` is the verified library:

- `types` — velocities, tracks, kits, patterns, the transport; the step
  events of a pattern (with the closed/open hat voice sharing rule).
- `sequencer` — step timing with swing.
- `file` — the 149-byte `.db64` pattern format (135-byte v1 files load too).
- `kits`, `asid` — SID kit parameters and the six-voice SID engine that turns
  drum events and timer ticks into register writes.
- `midi` — MIDI messages out (with redundant pan messages skipped) and the
  transport messages followed from an external clock.
- `engine` — the sequencer state machine: user actions and 5 ms timer ticks
  to new state and outputs.
- `sample` — WAV to 4-bit samples for SID master-volume playback.
- `theme` — which colour a grid cell is drawn in.

`app/` is the desktop program (iced UI, MIDI ports through midir, the
USBSID-Pico through usbsid-pico, file dialogs through rfd).
