# v8_runner

The core of a command-line runner for 1C:Enterprise development workflows,
written in Verus. The functions in `src/` are verified against their
contracts, except a small set of trusted wrappers (marked
`#[verifier::external_body]`) that call std, quick-xml, serde_json and rmcp;
their contracts are assumed, and some of them, such as the file-existence
check and the serde_json value conversions, promise nothing about their
result.

- `src/change_detection` — file states, the hash storage, change detection
  and the partial-load decision.
- `src/config` — the configuration model, its validation and the choice of
  the configuration file.
- `src/platform` — the utility locator, Designer command lines and the
  process runner's decisions (masking, retries, interruptions, waits).
- `src/support` — paths read by their components as `std::path::Path` reads them, text and number helpers, and the
  reading of XML source descriptors.
- `src/use_cases` — launch planning, bootstrap files, MCP readiness as a
  state machine, interruption wording, JUnit export checks.
- `app/` — the program around the library: argument parsing, file-system
  and process work, HTTP, and output.
- `tests/` — tests of the library on concrete values.
