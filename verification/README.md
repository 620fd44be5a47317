# trsync

Keeps a local folder in line with a remote Tracim shared space.

- `src/` is the verified library: the reduction of disk events, the local
  state of the synchronised contents, the startup comparison of both sides and
  the settling of conflicts, the executors that decide what each event asks of
  the disk and of the remote space, the watchers' decisions, and the tray's
  bookkeeping of running jobs.
- `app/` is the program around it: options, password, the SQLite index, the
  file system watcher, the HTTP client of the remote space, and the loops that
  perform the work the library decides.
- `tests/` runs the library on concrete cases.
