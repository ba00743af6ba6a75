# sound_manager_core

The logic of Sound Manager, a manager of Windows sound schemes, as a Rust
library whose behaviour is stated in contracts and proved with Verus.

- `src/` — the verified library:
  - `domain/` — the sound event table, the settings file, scheme metadata
    (`Scheme.ini`, thumbnail) and the translations of the user interface;
  - `archive/` — `.ths` archives (import, export) and proprietary
    `.soundpack` archives (decryption, conversion), over in-memory zips;
  - `audio/` — decoding audio files (driving symphonia), WAV writing and
    sniffing, the 30-second limit, playback outcomes;
  - `platform/` — the registry layout of sound schemes, Windows versions,
    startup sound patching checks, file associations, the startup sound flag,
    administrator grants;
  - `catalog.rs`, `downloader.rs` — the MyInstants catalog and the GitHub
    scheme repository (what is asked and what is kept);
  - `session.rs` — the background player's decisions at logon and at the end
    of the session;
  - `commands.rs` — the data of the user interface and the decisions of its
    commands;
  - `text.rs`, `paths.rs`, `encoding.rs`, `errors.rs` — text, Windows paths,
    base64/UTF-8/percent-encoding, and the error type.
- `tests/` — tests of the library on concrete values.
- `app/` — the background sound player program and the commands of the user
  interface: files, registry, Win32 calls and HTTP around the library.

Laws proved in `src/` are the public `law_*` proof functions.
