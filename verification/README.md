# cargo_reedme

Generates `README.md` files from the crate-level documentation comments of a
Rust package, with the rules that decide the generated text proved by Verus.

- `src/` is the verified library:
  - `config.rs`: merging the `[package.metadata]`, `[workspace.metadata]` and
    `docs.rs` tables with the defaults, and choosing the documented target;
  - `intralinks.rs`: the URLs of intra-doc links, from what rustdoc reports of
    the crate (`CrateModel`);
  - `markdown.rs` and `markdown/`: rewriting the documentation (links, code
    blocks, headings, smart punctuation) over the events of `pulldown_cmark`;
  - `replace_content.rs`: applying byte-range replacements;
  - `insert_into_readme.rs`: placing the generated text into a README;
  - `note.rs`: the informational note at the start of the generated region,
    and the comparison of READMEs that ignores it;
  - `readme.rs`: the README text of one package;
  - `diff_file.rs`: the sections of the difference shown by `--check`;
  - `text.rs`: characters and their UTF-8 byte offsets.
- `app/` is the `cargo reedme` command: it runs `cargo metadata` and
  `rustdoc`, reads and writes files, and prints.
- `tests/` runs the library on concrete values.
