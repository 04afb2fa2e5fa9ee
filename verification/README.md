# jira_summary

A tool that gathers the Jira comments a user wrote since a given date and
renders them as one HTML page, with the images they show stored beside it.

The decisions and text building are a Verus-verified library under `src/`:

- `args`: the command line (`--uri`, `--user`, `--output`, `--start-date`, `--help`).
- `jira_api`: the records exchanged with Jira, the addresses called, the paging
  through search results and comments, and the numbering of recorded responses.
- `summary`: which comments go on the page, the page's HTML (head, one part
  per issue with kept comments, tail), the credentials checks and the run's
  errors with the first lines of their report.
- `images`: the images a comment's HTML references, where they are fetched from
  and where they are stored.
- `date`, `text`, `outside`: dates and timestamps (through `chrono`), decimal
  text and string helpers, and the outside error types the library carries.

`app/` is the program around it: HTTP through `isahc`, JSON through `serde`,
files, logging and the async driving of downloads. `tests/` runs the library
on concrete values.
