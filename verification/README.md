# filmrust

Film-emulation toolkit. The library (`src/`) is verified with Verus; the
command-line program around it (`app/`) is ordinary Rust.

Library modules:

- `layers`: blend modes, layer kinds, the layer stack and its ordering rules.
- `image`: 8-bit RGB images and the integer kernels (box blurs, Gaussian
  approximation, motion and depth-of-field blurs, lookup tables).
- `stats`: channel sums and skin counts of an image; output-against-input
  difference counts of an effect.
- `presets`: manufacturer and name splitting, tags and descriptions of stocks.
- `lookup`: finding a stock or preset from a typed query or a style key.
- `styles`: the style catalogue, usage notes, tone labels and colours.
- `platform`, `files`, `studio`: platform detection, file names, window texts
  and theme colours.
- `exif`: carrying a JPEG's EXIF segment into a re-encoded file (through
  `img-parts`).
- `text`: the string functions the rest is stated over.

The effects that work in floating point (colour, curves, grain, tone
engines, compositing, image analysis scores) live in `app/`.
