# nila

Core of the Nila desktop app, written in Verus.

- `src/` is the verified library: encryption of secrets at rest (`crypto`),
  the rules of the `models` table (`database::model_factory`), migration
  bookkeeping (`database`, `database::migrations`), settings-store decisions
  (`app_store`), the tray menu (`system_tray`), errors and text helpers.
  `src/primitives.rs` holds every trusted item: the calls into `base64`,
  `aes-gcm`, `rand` and the few std functions vstd leaves unspecified.
- `tests/` exercises the library with concrete values.
- `app/` is the Tauri application around it: plugin setup, SQL queries,
  the settings file, the tray icon and the commands the front end invokes.
