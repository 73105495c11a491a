# sherlock-rs

Hunts for accounts by username: asks hundreds of sites whether a profile exists,
reads profile fields off the pages that do, exports what was found, and can keep
it in an encrypted vault.

The library under `src/` holds everything that decides or computes, with its
behaviour stated in contracts and proved by Verus. The program under `app/` does
the rest: HTTP, files, the database, the local server.

| Module | What it holds |
|---|---|
| `text` | texts: searching, replacing, trimming, numbers |
| `table` | a map from text to values that keeps its order |
| `sites` | how a site is described; domains; merging two lists |
| `catalog` | the formats of the site lists, and the one list made of them |
| `extract` | profile fields read off a page |
| `result` | the outcome of one check |
| `checker` | what is asked of a site, what its answer means, when to ask again |
| `search` | a search from what was asked for to its last event |
| `export` | results as CSV and as a report |
| `vault` | key, salt, and the life of the vault |
| `proposal` | what to do with evidence, and when without review |
| `ledger` | the statements for the vault's database |
| `store` | the rows behind those statements, and what follows for review and proposals |
| `answer` | which rows the questions among those statements ask for, and what is read back |
| `reply` | what the server answers |
| `outside` | the calls into other crates, whose contracts are believed |
