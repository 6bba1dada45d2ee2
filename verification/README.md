# asc-core

Parsers for Android application packages, with their behaviour stated as
Verus contracts and proved. What the outside crates compute is taken on
trust: the contracts of the small wrappers around `flate2` and `sha2` are
believed, not proved. Inflating is stated against a name for what `flate2`'s
streaming raw inflater gives, and digests against a named SHA-256.

- `src/zip.rs`: the end-of-central-directory search and the listing of the
  DEX entries of an APK.
- `src/inflate.rs`: extracting an entry, stored or raw-deflated (through
  `flate2`), with a cancellation token.
- `src/leb128.rs`, `src/mutf8.rs`, `src/unicode.rs`: LEB128 integers, Modified
  UTF-8 and the UTF-8 / UTF-16 conversions around them.
- `src/dex/`: the DEX header, DEX 041 containers, type descriptors and the
  table reader (strings, types, prototypes, fields, methods, classes, code
  items, lookups by descriptor).
- `src/opcode.rs`: the Dalvik opcode table.
- `src/dump/`: the primitive dump, which reads every table of every DEX file
  of an APK into plain records, and the query file of class names it takes.
- `src/digest.rs`, `src/text.rs`: SHA-256 digests (through `sha2`) and the
  decimal and hexadecimal text the dump prints.
- `app/main.rs`: the `asc dump-primitives` command, which maps the APK and
  prints the dump as JSON.

Verus checks the proofs from `src/lib.rs`; the tests under `tests/` run the
library on built inputs.
