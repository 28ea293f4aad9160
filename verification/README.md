# aiui

The core of the AIUI desktop companion: voice chat and desktop work windows that talk to
a main chat window, speech synthesis through Fish Audio, speech recognition through the
iFlytek (Xunfei) streaming service, and screenshots handed to the desktop work window.

The library in `src/` is formally verified. It holds every decision and data
transformation of the application, stated as `requires`/`ensures` contracts over
mathematical models:

- `text`: character-level string helpers (bounded prefixes, trimming, decimal text).
- `json`: a JSON value model with field lookup and field assignment.
- `turns`: conversation turns and their sanitizing.
- `settings`: session settings, the desktop shortcut, Fish Audio configuration,
  screenshot quality, developer mode.
- `codec`: hex, base64 and percent encoding, SHA-256 and HMAC-SHA256, identifiers and
  the current time, each through the crate that computes it.
- `preset`: voice preset directory keys, generation plans, manifests and replies.
- `fish`: speech synthesis requests and the retry policy.
- `xunfei`: the signed service address, audio frames, recognition results and the
  recognition session as a state machine.
- `state`: the shared application state: the main window's command queue, the
  conversation session, completion reports, window requests.
- `shell`: the tray menu, tray commands, main window handling and screenshot encoding.

Laws that span several calls are public proof functions named `law_*`.

`app/` is the Tauri shell around the library: windows, tray, global shortcut, network,
files, and the floating-point parts (sample conversion, window geometry, screenshot
scaling). `tests/` runs the library on concrete values.
