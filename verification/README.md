# tui-img

A terminal tool for batch image compression and conversion (JPEG, PNG,
WebP, GIF, TIFF, BMP, TGA), split into a library whose behaviour is stated
in Verus contracts and proved, and a thin terminal front end.

## Layout

- `src/` — the verified library.
  - `state.rs`, `control.rs` — the interface state as a mathematical model
    and the key handling, proved against it; work that needs the disk is
    returned as `Effect`s.
  - `navigation.rs` — which settings are offered for a format and how the
    cursor moves through them.
  - `listing.rs`, `exif_loading.rs`, `cache.rs` — directory listings, their
    order, the metadata cache and the camera-metadata cache.
  - `batch.rs`, `compression.rs`, `codecs.rs` — compression runs: the jobs,
    the worker's events and how they are taken in, output paths, resize
    and encoder choices, and the encoders (image, oxipng, webp) on bytes in
    memory.
  - `headers.rs` — what image and kamadak-exif read from a file's bytes:
    the picture size and the camera metadata.
  - `picture.rs` — a decoded image held in memory while it is resized and
    converted, with the record of how it came about.
  - `animation.rs` — animated GIF, WebP and PNG files: their frames, each
    frame prepared as a still image is, and the frames put together again
    (gif, png and libwebp's animation encoder).
  - `settings_panel.rs`, `file_list.rs`, `output_panel.rs`, `layout.rs` —
    the screen's text and geometry.
  - `models.rs`, `paths.rs`, `human.rs`, `text.rs` — settings, list
    entries, path operations as std does them on Unix (file name,
    extension, parent, join, comparison by components),
    human-readable sizes and string helpers.
  - `laws.rs` and the `law_*` proof functions elsewhere — properties that
    span several calls.
- `app/` — the program: terminal, keys, directory reading, reading and
  writing files, the floating-point parts of resizing and lossy WebP, the
  worker thread and drawing.
- `tests/` — tests of the library.
