# hermes-search-agent

An MCP server that hands web research to a dedicated Hermes agent profile, and
an installer that wires it into DSH.

The crate is a Verus library whose functions carry `requires`/`ensures`
contracts proved by Verus; `app/` is the program around it.

## Layout

- `src/` — the verified library
  - `text`, `yaml`, `json`: string helpers and plain models of the YAML and
    JSON documents the logic reads and edits
  - `prompts`, `tools`: the research policies and the per-call research briefs
  - `hermes`: the run capabilities, the framing of the run event stream and
    the choice of the terminal event; the API's URLs and HTTP error rules
  - `research`: research levels, time limits and how a run ends
  - `config`, `paths`: settings read from the environment, the file layout
  - `install/*`: the installer's decisions — the managed MCP block in the DSH
    patch, the managed DSH preset and default-preset setting, the Hermes
    profile configuration and the steps that set the profile up, where the
    preset to copy is searched for, secrets and environment files, the
    systemd unit, the pre-installation checks; `install/native_web_laws.rs`
    proves what the preset edits read back and that the check accepts them
  - `update`: release version comparison and checksum verification
  - `doctor`: the verdict of the post-installation health check
- `app/` — command line, HTTP client and MCP server, file and process I/O, and
  the conversions between `serde_yaml`/`serde_json` values and the library's
  document models
- `tests/` — tests of the library through its public API
