# blog

A personal blog and résumé site. Posts are markdown files with a YAML front
matter; pages are server-rendered HTML.

- `src/` is the library, verified with Verus: slug validation (`slug`),
  front-matter framing (`frontmatter`), markdown rendering with syntect
  highlighting and ammonia sanitising (`markdown`, `highlight`, `sanitize`,
  `render`), posts and their store (`blog`, `date`), the security headers of
  each environment (`env`, `headers`), error pages (`error`, `templates`) and
  small text helpers (`text`).
- `app/` is the HTTP server (axum): routing, askama templates, reading the
  posts directory and decoding front matter with serde.
- `tests/` exercises the library.
