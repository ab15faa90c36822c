# M3U8 Downloader

A downloader for HLS (M3U8) video streams with a desktop interface: it
fetches a playlist (following a master playlist to its highest-bandwidth
variant), downloads the segments concurrently with retries, decrypts
AES-128 segments, resumes from the segments already on disk, and merges
them in order with FFmpeg. Several downloads can be queued.

## Layout

- `src/` is the library, verified with Verus: playlist interpretation
  (`parser`), segment decryption (`crypto`), the decisions of a download
  run as a state machine (`downloader`), the FFmpeg concat list and command
  line (`merger`), configuration (`config`), task lines and the settings
  file (`tasks`), the batch queue and its log (`queue`), and what the
  window shows (`display`), on top of text and path helpers (`text`,
  `paths`, `hexcode`; paths are modelled with `/` as on Unix-like
  systems). Calls into `m3u8-rs`, `url`, `hex`, `sha2`, `aes`, `cbc` and
  `reqwest` go through small trusted wrappers whose contracts state what
  those crates do, except the display text of `reqwest` and I/O errors,
  of which nothing is stated.
- `app/` is the program: the egui window, HTTP requests, files, FFmpeg and
  the async runtime. It performs the actions the library decides on and
  reports back what happened.
- `tests/` runs the library on concrete inputs.
