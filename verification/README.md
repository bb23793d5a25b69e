# PayStream

A payment event stream processor: payment lifecycle events are consumed from a Kafka topic,
enriched with a risk score and ingest latency, folded into real-time aggregates served over
GraphQL, and republished behind a timeout, a circuit breaker and retries with backoff.

The library (`src/`) is written in Verus. Every function carries a contract, and every one is
proved except five trusted wrappers, whose contracts restate what the called code does:
`text::push_char` (`String::push`), `config::trim` (`str::trim`), `config::parse_i32` and
`config::parse_u16` (`str::parse`), and `enricher::millis_between` (chrono's `DateTime<Utc>`
subtraction and `TimeDelta::num_milliseconds`). `serde_json::Error` is declared as an outside
type so that errors can carry it.


| module | contents |
|---|---|
| `money` | currencies, exact minor-unit amounts, checked addition, the printed form of an amount |
| `event` | directions, statuses, UTC instants, payment events and their enriched form |
| `enricher` | risk score and ingest latency |
| `aggregates`, `aggregator` | the aggregates model, the running aggregator, and the laws of aggregation (order independence, what each count means) |
| `circuit_breaker`, `retry`, `timeout` | the breaker's state machine, the retry counter, the timeout error |
| `pipeline`, `fetch` | the pipeline's decisions: publish outcomes, success counts, next step, batch selection from fetched records |
| `config` | defaults and parsing of the node's settings |
| `schema` | the query side: health and the client view of the aggregates |
| `text`, `error` | decimal rendering helpers, the crate-wide error |

`app/` is the node: Kafka I/O, the async pipeline driver, the HTTP/GraphQL server, metrics,
environment reading and the serialised forms of the event types. `tests/` exercises the library.
