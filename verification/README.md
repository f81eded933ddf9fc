# hexatune_dsp

A real-time soundscape engine (binaural / AM tone, looping ambient layers,
random one-shot events, timed frequency cycles) with a C interface.

- `src/` is the verified core, written in Verus: the Xorshift64 generator and
  the random-event countdown (`event_scheduler`), the frequency cycle
  scheduler (`scheduler`), PCM channel handling (`pcm`), the looping players
  with loop-point crossfade (`sample_player`, `rain_player`), the event slots
  (`event_player`), the layer registry (`engine`) and the status codes of the
  C interface (`ffi`). Sample values and frequency deltas are generic: the
  core decides which samples make up a frame and when things change.
- `app/` is the floating-point signal path (oscillators, tone generator,
  mixer, crossfade blending, volume and pan), WAV decoding with `hound`, the
  thread-shared `Engine` and the `extern "C"` functions, built on the core.
- `tests/` exercise the core on concrete values.
