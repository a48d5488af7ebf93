# acli

A command-line client for Atlassian Cloud (Jira, Confluence, Bitbucket and
JSM Ops alerts). The library under `src/` holds the logic and is verified
with Verus; `app/` is the program around it.

## Layout

- `src/text.rs` – characters, decimal numbers, trimming, joining, padding.
- `src/json.rs` – a JSON value type, its mathematical model, lookup, building
  and compact JSON text.
- `src/client.rs` – requests as plain values: URL, query string
  (percent-encoded), authentication headers (Base64), JSON and multipart
  bodies; how a response status becomes a result.
- `src/config.rs` – profiles: choosing one, setting one up, removing one,
  masking tokens.
- `src/jira.rs`, `src/agile.rs`, `src/confluence.rs`, `src/bitbucket.rs`,
  `src/alerts.rs` – the requests of each product's API, the data they answer
  with, and the logic around them (ADF and XHTML storage rendering, schedule
  merging, alert lookup).
- `src/cli.rs`, `src/commands.rs` – reading the command line: global flags,
  flag values, numbers, and what each command asks for.
- `src/output.rs` – the lines each command prints.
- `app/` – sends the requests (`ureq`), reads and writes JSON (`serde`), reads
  and writes the configuration file, prompts, and prints.

Every function in `src/` states in its contract what it returns; the laws
(`law_*` proof functions) state what holds across calls or for all inputs.
