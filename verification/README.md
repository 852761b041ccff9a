# site_gen

The core of the static-site generator for the open source programs list,
written in Verus with its behaviour stated as contracts and proved.

- `src/model.rs`: the data model, stipend display (western and Indian digit
  grouping) and sort keys.
- `src/render/`: HTML escaping, inline code spans, slugs, the page frame and
  the four pages (programs, timeline, start here, resources).
- `src/validate.rs`: the build-time data checks, and the proof that they
  fail exactly on contradictory data.
- `src/og.rs`: text layout for the share cards.
- `src/output.rs`: page locations, sitemap and robots.txt.
- `src/json.rs`, `src/strings.rs`: JSON string literals (via `serde_json`)
  and character-level helpers.
- `app/`: the executable: reading the YAML, writing `dist/`, rasterizing the
  share cards.
