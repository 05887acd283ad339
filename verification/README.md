# ddns_server

A dynamic DNS service: routers report their address over a DynDNS-style
HTTP endpoint, an admin manages host names on a small web dashboard, and a
built-in authoritative DNS server answers A/AAAA queries for the host names
with the address last reported for their configuration.

Layout:

- `src/` — the library, verified with Verus: the decisions of every web
  endpoint (`web`, `update`), HTTP Basic credentials (`auth`), generated
  credentials (`credentials`), the DNS answers of the zone (`dns`), start-up
  settings (`settings`), the records and forms (`models`) and byte/text
  helpers (`text`).
- `app/` — the program around it: actix-web handlers and sessions, the
  SQLite store (sqlx), the hickory DNS server loop, templates and start-up.
- `tests/` — tests of the library on concrete values.
