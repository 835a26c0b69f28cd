# sentinel

Semantic predicates for software delivery: `sentinel assess <target> --policy <file>`
reads a target (a pull request `provider:owner/repo#number`, a path, or any other
identifier), has the JEV service answer a fixed set of questions about the change,
and evaluates a Rego policy on the answers. Thresholds given with `--thresholds
name=value` or in a `--thresholds-file` (one `name=value` per line) replace the
default thresholds of the same name; an `--inputs` JSON file is added to the
policy's data.

- `src/` is the verified library: reading targets and thresholds, the data model of
  policy values (objects kept in key order, numbers as the bits of doubles), the
  default policy data and thresholds, the general queries, turning answers into
  verdicts and verdicts into the value the policy receives, and the decisions of
  GitHub authorisation and of the OAuth token cache.
- `app/` is the command: argument parsing, files, the JEV and GitHub clients, the
  keyring, the Rego engine, and the conversions that pass numbers through `f64`.
- `tests/` exercises the library on concrete values.
