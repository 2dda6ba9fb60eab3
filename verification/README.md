# deepseek-desktop

The logic of a desktop shell around a local web server, verified with Verus.

The shell ships without the harness that it runs. On first launch, and whenever
the pinned version changes, it downloads the harness closure, holds it against a
pinned SHA-256 checksum, unpacks it and puts it in place. Then it starts the
harness on a loopback port, waits until that serves, and points its window at it.

- `src/` is the verified library. Each task that needs the disk, the network or a
  process is a state machine: it says what is to be done next, and takes how that
  went. The `*_laws` modules prove what holds of whole runs, such as that only the
  pinned archive is ever unpacked, that the installed tree is what unpacking it
  left, or that nothing happens to the old runtime before the new one is put in
  place.
- `app/` drives those machines: files, HTTP, sockets, and the Tauri window. Its
  `run` takes the text of the manifest that the build writes: the version, URL and
  checksum of the closure.
- `tests/` runs the library on concrete values.

Trusted, not proved: the `sha2` and `hex` calls in `digest`, the decoding of bytes
in `encoding`, and the path operations in `paths`. Each states what it claims.
