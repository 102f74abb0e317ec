# soundbar

A terminal visualizer for macOS desktop audio, with its non-floating-point logic
verified by Verus.

- `src/` — the verified library:
  - `audio::buffer` — the lossy sample ring (`AudioRing`): a writer never blocks,
    a full ring drops its oldest sample, reads come out oldest first.
  - `audio::analyzer` — `shift_append`, the sliding analysis window.
  - `capture` — Core Audio status checks and their messages (`check_status`,
    `fourcc`), and the aggregate device identifier.
  - `now_playing` — the track record and the reader of the media helper's JSON.
  - `visualizer` — the media label and the header line's pieces.
  - `permission` — the capture-permission message and the prompt's answer.
  - `text` — decimal/hex digits, Unicode trimming, ASCII lowercasing.
  - `cli` — the command line as plain data.
- `app/` — the program: argument parsing (clap), Core Audio capture (macOS only),
  threads, the FFT and spectrum shaping on `f32`, and terminal drawing (ratatui).
- `tests/` — tests of the library.
