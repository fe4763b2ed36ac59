# chopper

A sixteen-step drum machine and sample slicer. The verified library (`src/`)
holds the decisions; `app/` holds the audio device, the window, WAV reading
and everything computed in floating point.

- `engine.rs`: the sequencer — pattern edits, record-mode quantisation, step
  advance, voice allocation.
- `slicing.rs`: even slicing and onset slicing of a sample.
- `controls.rs`: the interface's settings (selected slice, octave, transport)
  and the commands its buttons, keys and clicks send.
- `label.rs`: the note label shown for a step's transposition.
- `noise.rs`: the noise generator's state step used by the built-in break.
- `waveform.rs`: which samples each point of the waveform view covers.
- `shared.rs`: state shared between the audio thread and the interface.
- `laws.rs`: properties that span several functions.
