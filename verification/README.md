# encrypted_zip

Builds password-protected ZIP archives in the browser. Files are compressed
with raw DEFLATE (flate2), encrypted with the traditional PKWARE stream
cipher, and written as local headers, a central directory and an end record.
The archive's identifier, its password and the random bytes of each
encryption header come from a seeded Mersenne Twister.

Layout:

- `src/` — the library, verified with Verus.
  - `byteorder` byte swapping and big-endian writers, `crc` the CRC-32 step,
    `mt` the generator, `uuid` and `passwd` the identifier and password,
    `text` hexadecimal text, `zip_crypto` the cipher and compression,
    `compress` the calls into flate2, `records` the ZIP records and their
    serialization, `zip` files, streams and the archive builder, `layout`
    the proof that a written archive's directory points at its members.
- `tests/` — tests of the library.
- `app/` — the wasm-bindgen interface exported to JavaScript.
