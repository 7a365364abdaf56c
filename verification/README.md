# ajo_circle

A rotating savings circle ("ajo") as a verified library.

- `src/` is verified with Verus. `AjoCircle` holds the circle's storage; each
  entry point is a method whose contract says, through the spec functions of
  `CircleStore`, exactly when the request is refused (and with which error),
  when it would halt the host, and otherwise how the storage changes and which
  token payment is owed. `AddrMap` keeps maps keyed by addresses in the
  ledger's order of addresses. `laws` proves what holds across requests: the
  circle's invariant over any sequence of requests, the table of status
  changes, capacity, that the pool only grows, that a member collects the pot,
  votes and is refunded at most once over any later requests, what refunds
  return, and that a drawn rotation is a permutation of the members.
- `app/` is the ledger contract around the library: authorization, loading and
  storing the storage, and the token transfers the library asks for.
- `tests/` runs the library on concrete requests.
