# galaxybook-sound

A GTK4/libadwaita sound panel for Fedora on the Galaxy Book: base equalizer
profiles, a 10-band equalizer and an Atmos-like stereo-widening mode, applied
through a PipeWire `filter-chain` drop-in and WirePlumber smart filters.

## Layout

- `src/` — the library, verified with Verus:
  - `profile` — the selectable base profiles, their titles, preset names and
    positions, and the normalization of legacy configurations;
  - `filter_chain` — the `filter-chain` configuration text (equalizer bands,
    widening stage, smart-filter target) and its escaping;
  - `pipewire` — parsing of `pw-cli ls Node` and `wpctl inspect` output, and
    the choice of the output that the filter is attached to;
  - `session` — the session state reported to the user;
  - `commands` — decisions on command results, polling, configuration paths;
  - `updates` — `dnf check-update` parsing and the update results;
  - `i18n` — message marking and placeholder substitution in translated
    messages;
  - `text` — the character-level model of the string operations used above.
- `app/` — the program: the GTK interface, the commands and files it runs
  and reads, the gettext catalog lookups, the JSON form of the saved configuration, and the equalizer gain
  arithmetic, which is floating point.
- `tests/` — tests of the library.
