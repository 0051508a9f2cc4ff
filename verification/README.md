# answeredthis

The logic of a small question-and-answer site, verified with Verus.

- `src/` is the library. Answers are written in Markdown; bare web
  addresses in them are turned into autolinks (`links`), the Markdown is
  rendered to HTML, and tagged code blocks are syntax-highlighted
  (`highlight`). `answer` puts a stored post together for display,
  `api` builds the answers API's JSON document (`json` holds the JSON type and its text), `decimal` writes and reads post ids, `calendar` writes the "as of" label
  of a new post, and `site` holds the request handlers' decisions and the
  GitHub sign-in addresses and session decisions. `markup` holds the calls into pulldown-cmark,
  htmlescape and syntect.
- `app/` is the web server (Rocket, Diesel with SQLite, GitHub sign-in over
  hyper) around the library.
- `tests/` runs the library on concrete inputs.
