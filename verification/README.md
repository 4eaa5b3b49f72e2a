# tds_codec

Verified decoders for a few value formats of the TDS (SQL Server) wire
protocol: `UNIQUEIDENTIFIER` columns, the text-pointer framed `IMAGE`,
`TEXT` and `NTEXT` columns, and the `ORDER` token.

- `src/` is the library, verified with Verus. Each decoder reads one value
  from the front of a byte buffer and returns the number of bytes it took,
  or `DecodeError::Incomplete { needed }` when the buffer is too short.
  Its contract equals a spec function of the wire format (text decoded with
  a collation's encoding is given there by a name for what `encoding_rs`
  returns); proof functions
  beside it show that a decoded value does not depend on the bytes after it
  and that any cut before its end is reported as incomplete.
- `src/foreign.rs` holds the trusted calls into `uuid`, `encoding_rs` and
  `String::from_utf16_lossy`.
- `app/` reads values from an async stream (`futures-util`), handing the
  decoders a buffer that grows by as many bytes as they ask for.
