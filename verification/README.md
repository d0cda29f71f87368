# cosmetics

Animated widgets for libcosmic, split in two crates:

- `src/` is the verified core, checked by Verus: frame stepping of the GIF
  player, the value rules of the range slider and the scrubber, the
  press/scrub/type state machine of the scrub-spin field together with its
  expression grammar, the windowing, paging and z-order of the fisheye rows,
  the segments of the toggle, the coverage and shadow planes of the text
  renderer, image decoding and blurring, and the blur memo. Calls into
  `libblur` and `image` sit behind small trusted wrappers whose contracts
  say what is assumed of them.
- `app/` is the GUI around it: the iced `Widget` impls, floating point
  geometry and easing, text shaping with cosmic-text, and the wgpu
  pipelines. It hands each discrete decision to the core.

`tests/` exercises the core on concrete values.
