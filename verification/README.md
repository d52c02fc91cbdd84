# screenblocker

The verified core of ScreenBlocker, a stand-up-and-stretch enforcer that runs
a focus→break cycle, blocks the screen when a break is due (or notifies during
meetings), shows a countdown in the tray and keeps a history of breaks.

- `src/` — the library, verified with Verus:
  - `timer` — the focus/break state machine, its model and its laws;
  - `store` — settings, the history log and the dashboard aggregation;
  - `meeting` — capture-stream detection and the manual override;
  - `messages` — the stretch and meeting prompt banks;
  - `tray_icon` — the countdown label, seven-segment digits and alpha conversion;
  - `commands` — the shared application state and its changes.
- `tests/` — tests of the library.
- `app/` — the Tauri application around it: windows, tray, notifications,
  JSON files, `pw-dump`, and the tiny-skia drawing.
