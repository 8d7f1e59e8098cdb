# inkuo_office

Word (`.docx`) documents for the InkUO editor: a document model, builders
for styled content (design tokens, callouts, code blocks, styled tables),
the writer of `document.xml`, header/footer and package parts, the reader
that parses a package back into the model, and the element view used for
editing. Everything under `src/` is verified with Verus: each public
function states its result over a mathematical model of its inputs, and
`src/laws.rs` proves properties that span functions (text directions read
and written back, page setup of every section, editing operations and the
element round trip, merged table cells, package parts read back as written,
refused pictures, section references, block rendering, style markers);
`src/fields.rs` proves that written field instructions read back.

The ZIP container and XML tokenizing are the `zip` and `quick-xml` crates,
reached through small trusted wrappers whose contracts name what those
crates return.

Layout:

- `src/` — the verified library (`lib.rs` lists the modules).
- `tests/` — tests of the library on concrete documents.
- `app/` — unverified plumbing: JSON forms of the model (serde), writing
  packages to files, reading and writing office files by path, and the
  LibreOffice-backed page rendering check.
