# dep-scout

Research before you build: an MCP server that looks for a mature package before
an agent writes one from scratch, with its decisions verified in Verus.

- `src/` is the library. Verus proves the contracts of its functions, but for the
  few trusted ones named below: what is asked of each registry (`sources/`), how
  answers become packages, the reuse score with its verdicts (`score`), relevance
  and ranking (`relevance`, `rank`), the texts of the replies (`report`) and the
  three tools as a whole (`tools`). Public `law_*` functions state what holds of
  several of them together.
- `app/` is ordinary Rust around it: HTTP, JSON and the MCP server.
- `tests/` runs the library on concrete values.

What is believed without proof is marked where it stands: appending a character
to a `String`, Unicode lower case and letters (`text`), reading RFC 3339 dates and
the clock (`clock`).

Scores count in whole numbers. Months are 30.4 days, rounded to even, and ranks
are compared as exact fractions, so that no rounding decides between candidates.
