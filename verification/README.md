# frontend_analyzer

A provider for the Konveyor analyzer that searches JavaScript and TypeScript projects, and plans
fixes for what was found. The library under `src/` is verified with Verus: every function states
what it returns, and the proof functions whose names begin with `law_` state what holds across
functions.

## What it does

- `evaluate`, `capabilities`: conditions on references, CSS classes, CSS variables and dependencies.
- `query_eval`, `query_names`, `query_parents`, `query_laws`, `property_values`: references, looked
  up in a project index (`project_index`, `index_lookup`).
- `jsx` and the modules that begin with `jsx_`, `object_props`, `locals`, `imports`, `exports`,
  `scope`: JSX elements and props in a syntax tree, across files.
- `classnames`, `css_vars`, `function_calls`, `scan`: texts and calls in a syntax tree.
- `scanner`, `printed_tree`, `estree`, `json`, `spans`, `code_snip`: source files, their syntax
  trees and places in them.
- `dependency`: package.json files and lockfiles.
- `rules`, `report`, `incident`: rules and what they find.
- `engine`, `fix_engine`, `fixers`, `fix`, `apply`, `apply_laws`: fixes, from planning to the new text.
- `goose_client`: prompts and sessions for fixes that need more than patterns.
- `service`, `serve`, `file_uri`: the state of the provider, where it listens, and the files that
  it is asked for.
- `text`, `paths`, `pattern`, `lookup`: texts, paths, regular expressions and names.

## What is taken on trust

Parsing is done by `oxc_parser`, matching by `regex`, JSON and YAML by `serde_json` and
`yaml_serde`, URIs by `url`. The items marked `external_body` and `assume_specification` say what is believed of
each call.

## Layout

- `src/`: the verified library
- `tests/`: its tests
- `app/`: the program around it, which reads files, runs `goose` and serves gRPC
