# smart_server

Server of the SMART tracker system: users (watchers) sign up and log in,
follow trackers under a name of their choice, read the positions of the
last hour of the trackers they follow, and receive a mail when a tracker
leaves or re-enters its safe zone.

- `src/` is the verified library: the data model (`model`), the tables
  with their operations and journal of changes (`db`), password hashing
  and the access-token guard (`auth`), the decisions of every route
  (`server`), response statuses (`responder`), request payloads
  (`request_data`) and the laws relating the operations (`laws`).
  Latitudes and longitudes are carried as the bit patterns of `f32`
  values.
- `app/` is the Rocket server around it: routes, JSON (de)serialisation,
  access tokens, SQLite storage through Diesel (the tables are loaded at
  start and the library's journal is written back after each request)
  and mail delivery through Mailjet.
- `tests/` exercises the library.
