# Pennywise

A personal finance ledger for one person's own money: currencies, accounts, categories and the
transactions between accounts, kept in one SQLite file and served over HTTP as JSON.

- `src/` is the ledger itself, written in Verus: routing, validation, the SQL that is sent, how rows
  are read, and the state machine that turns a request into statements and a reply. What is proved of
  whole requests stands in `laws`, `histories` and `batches`.
- `app/` is the server around it: the socket, the database file, and the JSON of bodies and rows.
- `tests/` runs the ledger, most of it against SQLite in memory.

| Method and path | What it does |
|---|---|
| `POST /currencies`, `GET /currencies` | create, list |
| `POST /accounts`, `GET /accounts`, `DELETE /accounts/{id}` | create, list, delete |
| `POST /categories`, `GET /categories`, `DELETE /categories/{id}` | create, list, delete |
| `POST /transactions`, `GET /transactions` | create, list |
| `POST /transactions/batch` | create several, all or none |
| `PATCH /transactions/{id}` | change the description or the category |
| `DELETE /transactions/{id}` | delete |

The server takes two flags: `--bind` (default `127.0.0.1:8080`) and `--db` (default
`./pennywise.db`).
