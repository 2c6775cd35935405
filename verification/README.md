# tidy-core

The engine of Tidy, a local-first reader: point it at a blog URL prefix and it
gathers every post underneath into an Obsidian-compatible Markdown vault.

The library (`src/`) is written in Verus. Its functions carry `requires` /
`ensures` contracts over mathematical models (`Seq`, `Map`, views of each
type), and the laws of the engine stand as public proof functions:

- `discover/` — URL prefixes, sitemaps, feeds, the crawl fallback as a state
  machine, and the ranked, duplicate-free URL collection.
- `extract/` — article extraction, quality assessment, metadata merging,
  Markdown conversion.
- `fetch/` — slugs and file names, frontmatter documents, image references,
  the plan for each fetched page and the run report.
- `highlights`, `search`, `state`, `scheduler`, `settings`, `maintenance`,
  `http`, `robots`, `vault` — the reader-side rules.

Calls into outside crates (`url`, `scraper`, `quick-xml`, `feed-rs`,
`dom_smoothie`, `htmd`, `pulldown-cmark`, `slug`, `sha2`, `chrono`,
`texting_robots`) stand behind small trusted wrappers whose doc comments say
what each contract claims.

`app/` is the command-line program around the library: HTTP, the file
system, SQLite, serde formats, and the async plumbing. `tests/` runs the
library on concrete inputs.
