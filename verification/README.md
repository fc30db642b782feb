# jet

A small static blog generator. Articles are markdown files with a front
matter; `jet build` renders them with two minijinja templates into a site
with a homepage of yearly archives, a page per published article and an RSS
feed; `jet serve` shows the site locally, drafts included; `jet create`
writes the scaffold of a new article.

- `src/` is the library, verified with Verus: the article and date model,
  the yearly archives of the homepage (grouping, newest-first stable order,
  drafts), the feed items, the site configuration, the scaffold of a new
  article, the server's lookup by slug and the decisions of the command
  line. Calls into chrono, markdown, minijinja, url and rss stand behind
  trusted wrappers whose contracts name what those crates compute.
- `app/` is the program around it: command line parsing (clap), reading
  and writing files, front matter and configuration parsing (serde), the
  homepage template context and the web server (axum, tokio).
- `tests/` runs the library on concrete inputs.
