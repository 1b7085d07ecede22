# seventh_deck

Installer and launcher for 7th Heaven (Final Fantasy VII mods) on SteamOS and other
Linux systems, with its decisions and text transformations verified by Verus.

## Layout

- `src/` — the verified library. Every function carries a `requires`/`ensures`
  contract over mathematical models (`Seq`, `int`, views), and the laws that span
  several functions are public proof functions named `law_*`.
  - `text` — string operations (search, replace, paths, words, URL encoding).
  - `library_scan` — walking Steam libraries and their apps in order.
  - `steam_helper` — finding the Steam installation, the process-stopping loop, the
    plan for adding a non-Steam game; `game` (finding a game, launching in its Proton
    prefix, wiping the prefix, patching Steam's configuration) and `proton` (runners,
    choosing the newest).
  - `proton`, `steamhelper` — the first generation of the Steam helpers.
  - `installer` — the welcome banner, choosing the release download, the setup
    arguments, the settings patch, and the loop that chooses the install folder.
  - `config_handler` — the `7thDeck.toml` settings.
  - `pattern`, `dialog`, `resource_handler`, `command` — regular expressions, message
    dialogs, files to write out, and processes to start, as plain values.
- `app/` — the programs: terminal and file dialogs, disk, network and process I/O, and
  the steps that need floating point (reading Proton version numbers). They hand plain
  values to the library and perform what it decides.
- `tests/` — tests of the library on concrete values.

Calls into outside crates (`regex`, `toml`, `textwrap`, `urlencoding`) and a few std
functions go through small trusted wrappers whose contracts state what those functions
document; each names the function it calls.
