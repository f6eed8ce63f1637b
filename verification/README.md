# liftcalc

"How much did I lift?" compares a lifted weight with everyday objects and
produces a shareable card for it.

- `src/` is the library, verified with Verus: the weight-spec grammar and link
  tokens, the share page and crawler detection, the card's SVG layout and the
  call that rasterizes it through `resvg` (the image is named, its PNG header
  stated), emoji search and icon editing, the fair draw
  of a measure across stores, the built-in measures, the client's API URLs and
  form decisions, and the escaping and base64 framing they rely on.
- `app/` is the web server around it: routing with `axum`, reading the
  configuration, emoji index, font and emoji files, and the floating-point
  arithmetic and number formatting of conversions.
- `tests/` runs the library on concrete values.
