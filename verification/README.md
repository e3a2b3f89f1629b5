# server_status

Monitoring of servers. A client on each host samples memory, disks, traffic,
connections and how three carriers answer, and reports on a gRPC stream (or by HTTP).
The server keeps the state of all hosts, tells notifiers of hosts that go down or
come back, stores the reports in SQLite, sums them up over time, and shows them.

- `src/` is the library, verified with Verus.
  - `text`, `decimal`, `registry`, `clock`, `payload`: texts, numerals, named tables,
    readings of the clock, and what hosts report.
  - `client`: `status` (which protocols are online, how carriers answer), `sys_info`
    (the sample), `grpc` (how the client connects and numbers its reports).
  - `server`: `stats` (the state of all hosts: reports and ticks), `laws` (what holds
    of it), `history` (spans of time), `db` (what is stored, summed up and cleared),
    `http` (requests and their answers), `detail` (the page with all details), `width`
    (the columns of its lines), `grpc` (who may open a stream, and what is done on it).
- `app/` is the program: the server, and the client where the first argument is
  `client`. It reads the machine, the network and the database.
- `tests/` runs the library.
