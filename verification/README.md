# rebuilderd

The decisions of a rebuilder daemon that compares its results with those of peer rebuilders, and
of the tool that tells it which FreeBSD packages there are, written in Verus: the contract of a
function says what it returns, and Verus proves it. Only what the clock shows is left open: of the
current time, and of the times at which disagreements are found, the contracts say no more than
that they are points in time outside of leap seconds.

The library neither reads nor sends anything. Where something is needed from outside, a function
returns what to ask for, and another takes the answer.

- `src/peers`: which peers are registered (`registry`), what is asked of them and what their
  answers say (`api`), what the latest local rebuilds say (`local`), where the two disagree
  (`crosscheck`), and what is known of one package, live or from the cache (`lookup`).
- `src/freebsd`: the package list of a mirror (`packagesite`), its packages (`pkg`), the times of
  the commits they were built from (`commits`), and a whole run (`sync`).
- `src/queue.rs`, `src/models.rs`, `src/binary_package.rs`, `src/packages.rs`: rebuild jobs, API
  filters, the table of binary packages, and maps by name and version.
- `src/text.rs`, `src/time.rs`, `src/status.rs`, `src/http.rs`: what all of these rest on.
- `app`: the web server, the database and the network around the library.

What is not proved is what other crates do: `chrono` (in `src/time.rs`), `serde_json` (in
`src/status.rs`), `zstd` and `tar` (in `src/freebsd/packagesite.rs`), and two functions of `String`.
Each call stands in a function of its own whose comment says what is relied on.
