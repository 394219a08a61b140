# vlz_core

The core of `vlz`, a software composition analysis tool: manifest and lock
file scanning, package declarations, CVE cache keys and corpus checks, PURLs,
reachability decisions, upgrade planning, remediation previews, VEX
generation and ingestion, report rendering (plain text, HTML, SARIF,
CycloneDX, SPDX) and the decisions of the editor server.

`src/` is the library, written in Verus: its functions carry
`requires`/`ensures` contracts over a mathematical model (sequences, maps,
views of the data types) wherever there is something to state (the reporter
constructors and the clock reading have none), and the laws the tool relies on (PURL and cache-key
round trips, the ignore table's mark/unmark read-back, per-package
reachability consistency, canonical declaration lists, decision keys that
ignore the order of languages and manifests, VEX statements that ignore
upgrade plans, ...) are public proof functions. Calls into `semver`,
`sha2`, `url`, `serde_json` and `std` that the logic needs go through small
trusted wrappers whose contracts state what those crates document.

`app/` is the input/output around the library: reporters writing to streams,
the JSON ignore database file with its lock, the stdio editor server loop,
running package managers, the persisted reachability cache and walking source
trees. Floating-point CVSS scores are mapped to severities there.

`tests/` exercises the library on concrete values.
