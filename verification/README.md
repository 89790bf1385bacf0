# whispering_recorder

The decision logic of Whispering's audio recorder, verified with Verus.

`src/` holds what the recorder decides:

- `config` — which input configuration a recording uses: the preferred rate (or 16 kHz)
  on a mono range first, then on any range, then the mono range nearest to it, then the
  device default; and the range and rate of the voice activity path.
- `device` — whether a name asks for the default device, and which listed device it names.
- `chunker` — buffering of captured samples into the 512-sample chunks the speech
  detector takes.
- `segmenter` — when a speech segment starts, continues and ends (the silence timeout),
  and the segment counter.
- `naming` — segment file names (`vad_<millis>_<segment>.wav`).
- `session` — the state of a recording session and what each command must do.
- `vad` — the state of the continuously running voice activity recorder.

`app/` is the Tauri side: audio devices and streams (cpal), WAV files (hound), the speech
detector model, worker threads, events and commands. It asks the library for every
decision it can take from plain values and carries out the I/O.
