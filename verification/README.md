# hub

Verified core of the hub service and its command-line client, written in
Verus. `src/` holds the logic with its contracts and laws: domain value
parsers, the delivery and extraction queues' decisions, the vault's ingest,
sharing, search and thread-page logic, the pastebin, the memory engine's
request and reply handling, and the client's argument parsing and
configuration file. `tests/` runs the library on concrete values. `app/` is
the thin layer around it: file and terminal I/O, serde copies of the
library's types, and session discovery.

Counts of tool labels are kept in a sorted vector of `(label, count)` pairs
(`src/tally.rs`), proved to be ordered by label and to count each label
exactly; a `BTreeMap` keyed by `String` gives Verus no specification of its
contents and order strong enough to prove that.
