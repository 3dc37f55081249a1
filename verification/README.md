# doodle_formats

Verified binary parsers for two file formats: the framing of gzip members
and OpenType fonts (single fonts and TrueType collections). Every parser is
an executable function whose contract says that it succeeds exactly when the
bytes match a mathematical description of the format (a spec function over
`Seq<u8>`), and that what it returns is the value that description gives.

Layout of `src/`:

- `bytes.rs`: reading big- and little-endian integers, two's-complement
  views, tags.
- `gzip.rs`: member header, optional fields, footer, whole members.
- `opentype/`: one module per table or family of tables (`cmap`, `head`/
  `hhea`/`maxp`/`hmtx`, `glyf`/`loca`, `name`, `OS/2`/`post`/`gasp`/`cvt `,
  `kern`, `STAT`, `fvar`, `gvar`, the layout tables `GDEF`, `GSUB`, `GPOS`,
  `BASE` and their common structures), the offsets that link them
  (`links`), the table directory and collection header (`directory`) and
  the reading of all tables of a font (`tables`).

Each table is read from its own bytes, so positions inside a table are
relative to the table's start; where a value records a position (the
`post` name strings, a `kern` format 2 subtable, the `STAT` table and its
axis-value offset array), the reader is told where the table lies and the
value is a position in the file. Offsets are resolved while parsing: a link
holds the offset and, where its target lies strictly after the offset
field, the parsed target.

Public proof functions (`lemma_*`) state properties of the formats as a
whole, such as that every array holds as many entries as its count field
says, or that a font's tables are read exactly as its directory lists them.
