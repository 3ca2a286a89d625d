# quarkdrive_windows

Mounts the Quark cloud drive into the Windows file explorer through the Cloud
Files API. Directories are listed on demand, files appear as placeholders and
are downloaded when they are opened, and the login session comes from scanning a
QR code.

The crate is a verified library and a thin program around it.

- `src/` is the library, verified with Verus. It does no I/O: it builds requests
  as values, says what replies lead to, and decides what the program does next.
  - `text`, `digits`, `order`, `wide`, `names`, `path`, `json`, `checksum`: texts,
    numbers, names, paths, JSON values and hashes.
  - `quark`: the drive's web protocol. Listing, downloading, uploading, replacing,
    and logging in are small state machines.
  - `cloud_files`: placeholders, the sync root, and the local space that the mount
    takes.
  - `windows_app`: the settings window, from the layout of its controls to moving
    the mount directory.
  - `config`, `cli`, `logging`: the configuration, the command line, the log.
- `tests/` runs the library.
- `app/` is the program: HTTP, files, the registry, the window and the callbacks of
  the file system. The parts that need Windows are compiled there only.

Calls into other crates stand behind small functions whose contracts are taken on
trust; each says in its doc comment what it claims of the call. Facts that hold of
the library as a whole are stated as proof functions whose names begin with
`law_`.
