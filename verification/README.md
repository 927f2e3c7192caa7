# holocard

The verified core of a small personal web site (a profile card with a music
player, a boot screen and an in-browser MP3 tag editor).

- `src/` — the library, verified with Verus:
  - `media` — the looping music queue and the boot probes' outcomes;
  - `util` — Fisher–Yates shuffling and random picks, with the random
    numbers supplied by the caller;
  - `media_catalog` — the media manifest and the catalog built from it;
  - `i18n` — the English and Russian interface texts;
  - `meta_edit` — MP3 tag reading and writing, cover image recognition;
  - `id3_tag` — the `id3` crate's operations behind trusted wrappers, with a
    model of a tag's frames;
  - `track_art` — the cover embedded in a track;
  - `pages`, `components` — what the pages and the section switcher decide;
  - `text` — small text operations.
- `tests/` — tests of the library.
- `app/` — the Leptos application: components, signals, DOM, network and
  random numbers.
