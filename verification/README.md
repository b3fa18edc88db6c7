# SlintLauncher

A Minecraft launcher whose logic is a library verified with Verus: isolated
instances, vanilla and Fabric, offline and Microsoft accounts, downloads of
the client, libraries and assets with SHA-1 checks, and launching through the
system Java.

## Layout

- `src/` — the verified library.
  - `config` — settings, accounts and instances; offline UUIDs as Java's
    `OfflinePlayer:` name UUIDs; repair of a configuration read from disk.
  - `rules`, `mojang` — Mojang's rule lists, version metadata, Maven paths,
    argument lists and the merging of inherited versions.
  - `install`, `launch`, `java` — download jobs, classpath, natives, the Java
    to use and the command line of the game.
  - `auth`, `ely`, `fabric`, `news`, `skin` — what the launcher makes of the
    replies of Microsoft, Ely.by, Fabric and Mojang's patch notes, and the head
    icon of a skin.
  - `actions`, `ui` — what the launcher's buttons do to the configuration, and
    what its lists and forms show.
  - `minecraft` — the launcher core with Ely.by support (manifest, install
    plan, command line).
  - `paths`, `text`, `digest`, `platform`, `util`, `error` — paths, verified
    string functions, digests, the host, small helpers and errors.
- `tests/` — tests of the library on concrete values.
- `app/` — the command-line program: network, disk, processes and JSON, with
  every decision taken by the library.
