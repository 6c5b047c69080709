# fixer

The verified core of Fixer, a media organizer: the rules that decide what
happens to a job, an ingestion run or a request, written in Verus and proved
against their contracts.

## Layout

- `src/` — the library. Each module states its model as spec functions and
  proves its executable functions against them:
  - `job_model`, `store`, `events`: job states and their transitions, stored
    rows and the bounded event history with its cursors;
  - `ingestion_model`, `ingestion_runtime`, `discovery`, `watcher`, `worker`:
    ingestion rules, the discovery of items under a root, the observation
    table of a watched directory and the decisions of the worker;
  - `output`, `paths`, `fs_policy`: placement of output files, the decisions
    of plan execution (every operation checked before anything is written,
    overwrite and stale-plan protection), and the safety of the paths written to;
  - `config`, `legacy_config`, `server_config`, `validation`, `env`,
    `network_policy`, `observability`: configuration defaults, the migration of
    legacy configuration files, environment settings and their validation;
  - `auth`, `auth_policy`, `api_*`: password and token handling, origin and
    cookie rules, and the answers of the HTTP layer;
  - `text`, `numbers`, `random`: string, decimal and random-byte helpers.
- `tests/` — tests of the library on concrete values.
- `app/` — the program around the library: reading the environment and the
  file system, and the shared runtime state.

Calls into outside crates (argon2, base64, getrandom, http, ipnet, sha2, url)
stand behind small trusted wrappers whose doc comments say what their
contracts claim.
