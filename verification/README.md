# upgate

Gates package-manager updates behind a minimum release age, a version
policy and a vulnerability audit, and models the interactive picker that
confirms them.

- `src/` is the verified library. Planning (`evaluate`, `planner`,
  `classify`, `release`, `versions`), the managers' readings of what their
  tools print (`mise`, `mise_metadata`, `pipx`, `bun`, `timestamps`), the
  audit service's bookkeeping (`audit`), the output tables (`outcome`,
  `notes`, `batch`, `scan`, `execution`, `snapshot`), the picker
  (`selection_view`, `selection_state`, `screen`) and the command-line
  decisions (`cli`, `adapter`, `infra`). `laws` holds the planning laws.
- `tests/` runs the library on concrete values.
- `app/` is the command-line program: it runs the managers and the
  registries, reads their JSON, and prints the tables the library builds.
