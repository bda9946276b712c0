# cubic

The logic of Cubic, a Linux-first Minecraft: Java Edition launcher, as a
library verified with Verus, and the launcher around it.

## Layout

- `src/` — the verified library. Every function states its behaviour in
  `requires` / `ensures`, and Verus proves it.
  - `text.rs`, `sort.rs`, `assoc.rs` — string handling, stable sorts and
    association lists, with their specifications.
  - `paths.rs`, `settings.rs` — the XDG layout and the user settings.
  - `metadata/` — version profiles: rules, inheritance, Maven paths.
  - `download.rs` — download plans for a game version, hash checks, and the
    steps of fetching one file.
  - `java.rs` — Java version parsing, runtime selection, Mojang runtimes.
  - `launch.rs` — class path, arguments and the launch command line.
  - `auth.rs` — offline accounts, the OAuth device flow's decisions,
    Xbox Live and Minecraft services.
  - `instance.rs`, `loader.rs`, `mods.rs` — instances, Fabric and Quilt,
    and the mod index.
  - `digest.rs` — MD5, SHA-1, hexadecimal and UUIDs through their crates.
- `tests/` — tests of the library on concrete values.
- `app/` — disk, network, keyring, processes and the commands the
  interface calls; it hands plain values to the library.

Laws of the library are public proof functions (`lemma_*`), such as the
stability of the sorts, the nesting of the instance directories, and that
a launch always sets a heap size and a class path.
