# avatarplugin

An avatar loader and input-event library for an OBS avatar plugin, written
in Verus. The library (`src/`) is verified; `app/` holds what touches the
file system, devices and C strings.

- `src/loader/`: avatar configuration types, the mode loader (backgrounds,
  hands, key images and per-hand key frames, legacy format), the avatar
  assembler and the avatar cache. Loaders work on what was read from disk:
  parsed configurations and an `ImageStore` of the outcome of loading each
  image (the image, or the message of the failed load), keyed by path. `LoadedMode::image_paths` and
  `Avatar::face_image_paths` list the images a load looks up, and the
  `lemma_load_reads_only_*` proofs show that loading exactly those suffices.
- `src/input_capture.rs`: input events, capture backends, and the
  conversion of raw evdev events into key presses and releases.
- `src/str_map.rs`: a string-keyed map with a `Map` view.
- `src/text.rs`: path joining, decimal parsing and printing, substring search.
- `src/string.rs`, `src/native_enum.rs`, `src/encoder.rs`, `src/output.rs`:
  nul stripping for C strings, the native enum conversion error, and the
  plugin traits that use plain values.
- `app/`: reading JSON configurations (serde) and images (image), the evdev
  keyboard capture and the choice of capture backend per build, C string conversions, the crate error type and the
  pointer-wrapper traits.
