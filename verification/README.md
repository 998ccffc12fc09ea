# music_rust

A terminal music player for a folder of audio files (MP3, FLAC, WAV, OGG,
M4A, AAC, Opus, WMA), with the library grouped by artist and album, a flat
playlist, seeking, volume and mute, desktop media keys and a tag editor.

The player's logic is a library verified with Verus (`src/`):

- `catalog` — tracks, album and artist groups; stable album sort, grouping
  by artist and album, numbering of the flat playlist.
- `player` — the player state: volume and mute, pause and elapsed time,
  seeking, next and previous, and what the media controls are told.
- `cache` — the cache of track metadata, keyed by the components of each
  path and kept sorted by them.
- `paths` — paths as lists of components, and their order.
- `scan` — which files play, and the track made from a file's tags or from
  the cache.
- `editor` — the metadata editor's keys, and the tag changes to write.
- `browser` — selection and focus in the library columns.
- `layout` — terminal geometry and the rows of the album column.
- `opus` — frame and buffer arithmetic for Ogg Opus playback and seeking.
- `text`, `time` — string helpers, durations and instants.

`app/` holds the program around it: the terminal interface, the sound
output, file scanning and tag reading and writing, the cache file, and the
desktop media controls.
