# ephyr

The logic of an RTMP re-streaming server, verified with Verus: re-streams,
their inputs, outputs and mixins; the API operations on them (adding,
editing, enabling, tuning, exporting and importing); the decisions of the
pools of FFmpeg processes and TeamSpeak captures; the arguments and
pipelines the processes run with; the file manager that downloads playlist
files from Google Drive; the dashboard that watches clients; and the
requests and replies of the GStreamer daemon, SRS and Google Drive APIs.

Layout:

- `src/` — the verified library. Each public function states in its
  contract what it returns or changes; laws that relate several calls
  (idempotency of edits, what a second switch answers, what an import keeps)
  are public proof functions beside the functions they speak of.
- `tests/` — tests of the library on concrete values.
- `app/` — the program around the library: command-line options, the
  download loop, the processes, the sending of dashboard commands and the
  gathering of client statistics, HTTP requests and JSON decoding.
