# lore

The decisions behind a version store's tools, as a verified library:

- `stamp`: writing a build name into the version slot of finished artifacts, and `version`: reading
  it back.
- `drive`: a workspace served over HTTP as files and folders. Each request is a state machine that
  says what to do next and takes what came of it.
- `props`: custom properties of files and folders, as they are stored.
- `store`: an immutable store of fragments over an object store and a catalog, as state machines
  too.
- `command`: the code that is derived for an enum of commands, and `profile`: the build profile that
  a build script runs under.
- `text` and `types`: what the others share.

`src/` holds the library. Contracts are stated over the views of its types; the functions that call
other crates, and what is taken for granted of those, stand next to the code that needs them. Public
proof functions state what holds over several calls, such as that no file of a batch is written
before every file is planned.

`app/` does what the library asks for: it reads and writes files, serves HTTP, and talks to the
version store and to the object store. `tests/` runs the library.
