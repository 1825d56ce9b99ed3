# backend

The verified core of a metrics monitoring service. Agents on the monitored
servers answer `GetMetrics` requests over TCP with JSON documents; the service
keeps the latest document of each server, persists its measurements in
PostgreSQL, and serves a REST API with the live status of the sources, the
latest metric values, and stored reports.

`src/` is a Verus library holding the service's logic with its contracts and
proofs:

- `packet`, `handshake`, `client`: the wire format, the challenge-response
  handshake and the session state of a connection to an agent;
- `requester`: the polling loop as a state machine;
- `addr`, `text`, `report_file`: server addresses, trimming, and where report
  documents are stored;
- `collections`: maps keyed by server id or by name;
- `metrics`, `health`, `status`, `realtime`, `reports`: what the service keeps
  of the documents and how it answers the REST endpoints.

`app/` is the program around it: the Tokio runtime, the sockets, the
database queries (sqlx), the HTTP server (axum) and the JSON copies of the
library's types.
