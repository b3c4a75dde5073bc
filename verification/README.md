# raolv

The verified core of RaoLv, a small media site (articles, videos and photos)
with accounts, captchas and two languages (English and Chinese).

- `src/` is the library, checked by Verus: locale negotiation and path
  normalisation (`i18n`), media naming and lookup rules, captcha arithmetic and
  its SVG, credentials, CSRF and session rules, configuration, form and query
  helpers (`common`), the models and pagination (`models`), query pieces
  (`db`), and every form action as a step function from the last outcome to
  the next step (`pages`). Outside crates (argon2, aws-lc-rs, icu,
  pulldown-cmark, uuid, base64) are called through small trusted wrappers
  whose contracts say what the library relies on.
- `tests/` exercises the library with concrete values.
- `app/` is the program around it: configuration from the environment, the
  serde shapes of forms and rows, media files on disk (ffmpeg, ffprobe), and
  the handlers that run each action's steps against the site's services.
