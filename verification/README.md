# wittgensteinsourcerer

Downloads the facsimiles of Wittgenstein's Nachlass from wittgensteinsource.org,
keeps WebP copies of the pages and, on request, bundles each document into a PDF.

- `src/` is the verified library (Verus): the site's addresses and the reading
  of its collection list and document pages (`catalog`), the downloader's
  command line, failure reports and retry decisions (`download`), the PDF's
  quality setting, page selection, labels and page images (`pdf`), the WebP
  copies (`compact`), the command line's defaults and document selection
  (`cli`), and the text operations they rest on (`text`).
- `app/` is the program around it: command-line parsing, HTTP, running the
  `dezoomify-rs` downloader, the file system, WebP encoding and PDF drawing.
- `tests/` exercises the library on concrete values.
