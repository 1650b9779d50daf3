# zonemail

A small email service in one program: a REST API that provisions domains and
mailboxes, an authoritative DNS server, an inbound SMTP listener, and a worker
that delivers outbound mail.

`src/` is the verified library. It holds every decision of the service: which
mailbox an address names, what a DNS request is answered, what is stored and
forwarded of a message, when a delivery job is claimed, retried or given up,
what a request to the API is answered, and who may make it. Each function
states in its contract what it returns or changes, and Verus proves that it
does. What the service promises across functions stands at the end of each
module as proof functions named `law_..`.

`app/` is the program around it: configuration files, the database, sockets and
HTTP. It asks the library what to do next, does it, and reports back.

| module     | what it decides                                              |
|------------|--------------------------------------------------------------|
| `config`   | the settings and their defaults                              |
| `db`       | the rows, the record types, the domain part of an address    |
| `app`      | what is seeded from the configuration                        |
| `dns`      | record data, requests, responses                             |
| `email`    | recipients and the intake of a message                       |
| `send`     | the outbound queue, backoff, mail hosts, envelopes           |
| `services` | starting and stopping the optional listeners                 |
| `auth`     | tokens, keys, roles and the guard                            |
| `api`      | the documents, the paging and each endpoint                  |
| `json`     | reading JSON                                                 |
| `text`     | strings                                                      |
| `time`     | instants and spans                                           |

Calls into other crates stand behind functions marked
`#[verifier::external_body]`; the comment above each says what is claimed of the
call.

The database is reached by `toasty`. The driver is one of its features, such as
`turso` for the default `database_url`, which a deployment adds to `Cargo.toml`.
