# spotstream

A command-line adapter that streams Spotify tracks as raw PCM and prints
track and playlist metadata, built on `librespot`.

The library under `src/` is verified with Verus:

- `spotify_id` — Spotify IDs as 128-bit numbers and their 22-digit base-62
  text; the conversions are `librespot`'s, and their exact behaviour is
  stated and the two directions are proved inverse.
- `text` — trimming, prefix tests, search and splitting on `&str`,
  specified over the characters of the string.
- `player` — reading track and playlist IDs from raw IDs, URIs and web
  links, and building the track and playlist records.
- `auth` — the decisions of the RFC 8628 device pairing flow: polling
  interval (raised by 5 seconds on each `slow_down`), deadline, and what
  each token-endpoint reply leads to.
- `cache` — the choice of the session cache directory.

`app/` is the program: command-line parsing, HTTP requests, the Spotify
session, audio playback and JSON output.
