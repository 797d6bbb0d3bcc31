# meeting_recorder

The decision core of a two-track meeting recorder: the user's microphone on one track, the
other side of the call on the other. It decides, and it is verified with Verus; what
touches threads, timers, sound cards and services is the layer around it.

## Layout

`src/` is the library.

- `rebinding`: which device or process a capture binding is bound to, and what to start,
  stop or retry when devices come and go. `rebinding/model.rs` is its mathematical model,
  `rebinding/laws.rs` what holds of every decision.
- `supervisor`: carries those decisions to capture workers, with one worker per binding
  (`windows`) or one shared stream for all of them (`macos`).
- `aligner`, `timeline_adapter`, `normalize`, `segmenter`, `xcorr`: captured packets on one
  timeline, cut into segments.
- `silence_gate`, `timestamp_mapper`: what is sent to a metered transcription service, and
  how its timestamps are brought back to the wall clock.
- `live_transcription`: sessions, outages, reconnects and transcripts of a recording that
  is still going on; `retranscribe` fills the gaps afterwards.
- `pipeline`, `session_lifecycle`, `upload_worker`: commit, upload, finalize, recover.
- `device_diff`, `device_select`, `device_watch`, `capture_stream`, `capture_session`,
  `frame`, `frame_collector`, `permissions`: the rules at the edge of the capture backends.

Samples are of a generic type in `src/`: the library says how many samples go where, and
never what they are. Durations and positions are integers.

`app/` drives the library. It holds the arithmetic on `f32` samples, the channels and the
event loops, the traits behind which storage, upload and transcription services stand, and
the ScreenCaptureKit and CoreAudio calls.

`tests/` runs the library.

## Laws

What holds of the library as a whole is stated as public proof functions, named `law_*`,
next to the functions they speak of.
