# md2pdf

Markdown to PDF, Typst, HTML and DOCX, with the document pipeline verified
in Verus.

- `src/` — the library, every function with its contract:
  - `parser/` — frontmatter, the CommonMark tree (parsed by comrak, read
    back from its XML rendering) and its lowering to the document model;
  - `ir.rs` — the document model and its mathematical views;
  - `render/` — the Typst, HTML and DOCX back-ends, the back-end choice,
    and the laws they share (`backend.rs`, `anchors.rs`);
  - `security.rs`, `assets.rs` — the deny-by-default image policy and the
    image references a caller probes;
  - `theme.rs`, `config.rs` — themes and the `md2pdf.toml` file;
  - `cli/` — the decisions of the command line (option layering, format,
    theme and output choice, `validate` counts and reports);
  - `direct/` — the single-pass converter from the CommonMark tree
    straight to Typst markup.
- `app/` — the `md2pdf` binary: argument parsing, files, standard streams.
- `tests/` — tests run against the compiled library.
