# yt_dlp

The decision-making core of a `yt-dlp` front end, written in Verus and proved
against its contracts: the model of a video and its formats, the rules that
rank and select video, audio and storyboard formats and thumbnails, the
classification of download events, how a finished process becomes a result,
the planning of live recordings and the command lines of their engines, the
bookkeeping of HLS segments, and the reading of FFmpeg progress lines.

- `src/` is the verified library. Floating-point fields are held as their
  IEEE-754 bit patterns and ordered as `OrderedFloat` orders them
  (`float_order`). `laws` states properties that span several operations.
- `tests/` runs the library on concrete values.
- `app/` is the unverified layer around it: the serde models of yt-dlp's JSON
  (with `OrderedFloat` fields), process spawning with tokio, and the FFmpeg
  and yt-dlp recording engines, which call the library for every decision.
