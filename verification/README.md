# backend

The logic of a small file-cloud web server, verified with Verus: users log in with a
password and get a token, browse and download the files below their own data folder
(whole or in byte ranges), share folders by id, get image previews in several
resolutions and file-type icons drawn as SVG, and admins inspect and clean the preview
cache.

- `src/` is the verified library. Every function states its result in its contract;
  the laws that tie several functions together are proof functions named `lemma_*`.
  - `auth`: user ids, password hashes (SHA3-256, hex), token login and logout, the
    `Authorization: Bearer` header; `auth::jwt` the claims of signed tokens.
  - `token_validizer`: the store of active tokens; `utils`: random tokens.
  - `fs`: user paths (`netfilepath`, `path`), folder descriptions, byte ranges
    (`download`, `partial_file`), previews, shares, and the decisions of the
    producer/consumer buffers and the write/read pipe.
  - `icons`, `admin`, `config`, `database`, `text`.
- `tests/` runs the library on concrete values.
- `app/` is the Rocket server around the library: routes, request guards, the SQLite
  database, the configuration from the environment, file I/O and image scaling.

Environment variables: `DATA_PATH` (default `./test_data`), `DB_PATH` (default
`./database.sqlite`), `ICON_CONF` (default `./icon-conf.json`).
