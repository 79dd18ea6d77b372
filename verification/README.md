# fallow_cli

The reporting and orchestration logic of the fallow command line, written in
Verus: each public function states in its `ensures` what it returns, and Verus
proves the body against that statement.

- `src/` is the verified library: CI output (SARIF, Code Climate, review
  envelopes, pull-request comments, gate and request summaries, baseline
  advisories), diff filtering decisions, fingerprints, the kill registry, the
  similar-code command's decisions, and the type-aware companion's protocol
  (queries, response checks, decoding, merging of run metadata).
- Laws that relate several functions stand in `src/` as public proof
  functions whose names begin with `law_`.
- The few calls into outside crates and into std that Verus has no
  specification for stand behind small `#[verifier::external_body]` wrappers,
  each with a doc comment saying what its contract claims.
- `tests/` runs the library on concrete inputs.
- `app/` is the unverified process around it: argument parsing, environment
  variables, files and streams, signals, terminal colour, and JSON envelopes.
