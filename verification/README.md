# denpie_frontend

The verified core of the Denpie browser client (daily tip cards with SM-2
review), written in Verus.

`src/` is the library. Its public functions state their results in
`requires` / `ensures` contracts that Verus proves; the few calls into the
standard library and the `base64` crate that Verus cannot read stand behind
small wrappers whose contracts are taken on trust and say what the outside
documentation promises. The modules:

- `wire`, `codec`, `pb_req`, `pb_card`, `pb_resp` (`pb` names them all): the
  protobuf wire format of the `/api/v1` envelope, with decode-after-encode
  proved for every message (unknown fields and groups are skipped on
  decode).
- `client`: building envelopes, classifying HTTP responses, error texts,
  request ids, idempotency keys and the retry rule for mutations.
- `ops`, `rows`, `settings`, `data_url`: the requests of each operation and
  how each result becomes what the pages show.
- `account_switch`, `toast`, `labels`, `search`, `dates`, `forms`, `ui`,
  `route`: the interface's own rules (remembered accounts, toasts, titles and
  labels, image, topic and archive search, relative times, account forms,
  classes, routes).
- `text`: character-level helpers (trimming, case, searching, numbers).

`app/` is the browser glue that Verus does not see: the HTTP transport, the
async operations, local storage, JSON settings and the browser clock.

`tests/` runs the library on concrete values.
