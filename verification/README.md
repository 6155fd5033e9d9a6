# rustchan

The rules of an imageboard, verified with Verus: which managed media files are
safe to delete, which originals are pruned, how uploads are stored and shown,
who may edit or delete a post, and how requests and log lines are treated.

* `src/` is the library. Every function states what it returns or changes;
  proof functions whose names begin with `law_` state what holds across
  functions.
  * `text`, `numbers`, `paths`, `digest`, `json`: strings, decimal numbers,
    relative paths, digests and JSON documents.
  * `media`: storing uploads (`convert`, `exif`, `pixels`, `process`,
    `thumbnail`), pruning originals (`prune`) and reconciling files with the
    database (`reconcile`).
  * `models`: boards, posts, pages of records.
  * `handlers`: threads, replies, votes and self-service edits.
  * `middleware`: client addresses, tokens, rate limits and shared gates.
  * `logging`: what a log line shows.
  * `launch`: whether the program opens a terminal.
* `tests/` runs the library.
* `app/` is the program around it: the command line, the database, the file
  system, subprocesses, HTTP and logging outputs. It hands the library what it
  observed and carries out what the library decides.

Decisions that depend on the outside world take what was seen as plain values,
so they are verified for everything that can be seen.
