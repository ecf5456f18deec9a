# etwin

The job system and the user records of the Eternal-Twin services, as a
library verified with Verus.

- `src/` is the library. Each public function states what it returns in its
  contract, over the views of the types; the `law_*` proof functions state
  what holds across calls.
  - `time`, `temporal`: instants, periods, durations, and values that change
    over time with their history.
  - `job`, `job_store`: tasks and the in-memory task store (creation, steps,
    blocking children, which task runs next).
  - `job_runner`: the decisions of the task runner and of the job service.
  - `pg_interval`, `pg_store`: what the PostgreSQL store reads and checks.
  - `twinoid`, `dinoparc`, `dinoparc_client`, `popotamo`,
    `popotamo_page`, `popotamo_scraper`, `text`: user ids and names, the
    Dinoparc login responses, and the reading of Popotamo pages.
- `app/` holds what runs around it: clocks, locks, SQL, HTTP and the
  asynchronous task runner.
- `tests/` exercises the library on concrete values.
