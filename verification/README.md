# gyroflow_core

The verified core of a video stabilization engine's data handling: the readers of
the files it loads (Lensfun lens databases in XML, `.cube` colour look-up tables),
the keyframe store of a project, the settings store, and the rules that name and
select lens profiles. Each function states what it returns in its contract, and
Verus proves it.

- `src/` — the library, verified with Verus.
  - `text`, `decimal` — characters, whitespace, words, replacement, and numbers read
    in the grammar of floating-point text (infinities and NaN included).
  - `xml_events`, `xml_readers` — the events of an XML document, read with
    `quick-xml` or `xml-rs` behind trusted wrappers; the events a document gives are
    named by what the outside reader hands out, so each reader's result is stated
    over the document it is given.
  - `lensfun`, `lensfun_database`, `lensfun_xml` — three readers of the Lensfun
    database, each an event-by-event state machine with its laws.
  - `lensfun_integration`, `lensfun_import` — where a system database is looked for,
    and the choices made when profiles are made from the bundled database.
  - `keyframes` — keyframe types, easings, and the keyframe manager.
  - `lut` — `.cube` files.
  - `settings`, `json` — the settings store over JSON values.
  - `lens_profile`, `clip_rotation`, `file_metadata`, `sony`, `splines`, `project` —
    smaller pieces.
- `tests/` — tests run against the compiled library.
- `app/` — ordinary Rust around the library: files, the global settings store,
  threads, floating-point work (interpolation, LUT sampling, lens pairing) and the
  serde forms of the library's types.

Numbers that the files write in decimal are kept as an integer and a power of ten
(`Decimal`): exactly where the digits fit a `u64`, else rounded to nineteen
significant digits; whether such a number reads as zero or above zero in binary64 is
decided exactly, underflow included. Floating-point
values that the engine computes are held as the bit patterns of their binary64
values, and all floating-point arithmetic happens in `app/`.
