# clymene

An atlas image and data generator for game sprites: it gathers images and
Aseprite animations, packs them onto one atlas image, and writes a JSON data
file describing every graphic's frames, regions and tracks. A cache keeps
generated frames between runs so that only changed sources are processed
again.

## Layout

- `src/` is the library, written in Verus and verified: atlas sizing and
  packing retries, atlas composition, the cache (lookup, registration,
  verification against the sources, removal of stale entries), cache
  identifiers, graphic data records, the data file's contents, Aseprite
  export interpretation, the processing tally and the settings defaults.
  `src/laws.rs` states properties that hold across these operations.
- `tests/` runs the library on concrete values.
- `app/` is the program around the library: settings, cache and data files
  (serde), the file system, the Aseprite executable, worker threads and
  terminal output. Its decisions are taken by library calls; what remains
  there is reading and writing files, running programs, handing work to
  threads and checking the library's preconditions before each call.
