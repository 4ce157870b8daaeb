# sewer56-archives-nx

Building blocks of the Nexus (Nx) archive format, verified with Verus: the packed
headers, the table of contents in its V0/V1 layouts and in the v2 presets and Flexible
Entry Format, the string pool of file paths, the dictionary payload, and the packer's
settings and file list.

## Layout

- `src/` is the verified library.
  - `headers/raw` holds the bit-packed headers and entries, each with the spec of its
    packed word and lemmas that read its fields back.
  - `headers/parser` holds the string pool and the dictionary payload, with round-trip
    laws (`lemma_string_pool_round_trip`, `lemma_dictionary_section_round_trip`).
  - `headers/managed` writes and reads whole tables of contents
    (`lemma_toc_v1_round_trip`, `lemma_toc_v2_round_trip`,
    `lemma_chosen_format_round_trip`).
  - `api` holds the packer's settings (`PackingSettings::sanitize` and its laws), the files
    to pack and the builder.
  - `utilities` holds the bit fields, little endian bytes, and the trusted calls into
    `zstd`, `memchr`, `nanokit` and `xxhash-rust`.
- `app/` holds what touches the file system or the machine: memory mapped files (through
  `lightweight-mmap`), adding files and folders from disk, caller-held streams, and the
  core count for the default settings.
- `tests/` runs the library on concrete values.
