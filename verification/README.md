# warframe-api-helper

Extracts Warframe credentials (`accountId` and `nonce`) from the running game
process, downloads the inventory and writes it as JSON plus an encrypted
`lastData.dat`.

## Layout

- `src/` — the verified library (Verus). Every function there carries a
  contract:
  - `text`, `json`: string and byte helpers, JSON checks and re-serialising;
  - `pattern`, `memory`, `types`: finding `?accountId=` … `&nonce=` in memory
    regions and choosing the best pair;
  - `crypto`, `config`: AES-128-CBC and Argon2id key handling for
    `lastData.dat`;
  - `storage`: the data directory, the names and contents of the saved
    files, and the account id read back from `lastData*.dat`;
  - `api`, `download_workflow`, `nonce_path`: the decisions of the download
    (endpoints tried in order, `LOGIN_EXPIRED:`), the account name, and where
    the account id is looked for, in order;
  - `ee_log`, `process`, `output`, `search_workflow`: reading `EE.log`,
    process-list output and the report lines.
- `app/` — the command line program: argument parsing, HTTP, file system,
  process memory access and printing, calling into the library.
- `tests/` — tests of the library on concrete values.
