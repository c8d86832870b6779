# durable-streams-kafka-bridge

Forwards Durable Streams into Kafka. The library decides everything that can be decided without
talking to anyone, and is verified with Verus; the program around it does the talking.

## Layout

- `src/types/`, `src/protocol/`: the values of the protocol, the headers of its responses and the
  parser of server-sent events
- `src/transport.rs`, `src/retry.rs`, `src/client.rs`, `src/stream.rs`: the requests to the server,
  what follows when they fail, and subscriptions that pick up where the last checkpoint left off
- `src/config.rs`, `src/topic.rs`, `src/kafka.rs`: the configuration, and the topics, keys, headers
  and settings that follow from it
- `src/bridge.rs`: turns the events of a stream into records, and keeps an offset only once Kafka
  has acknowledged the record that ends there
- `src/discovery.rs`: decides which streams a control stream announces
- `src/offset_store.rs`: the offsets that are kept, and the steps that put them into a file
- `src/app.rs`: the steps of the start, and what follows when one of them fails or a task ends
- `src/text.rs`, `src/text_map.rs`, `src/time.rs`, `src/paths.rs`: texts, maps, spans of time and
  the paths of files
- `src/bindings.rs`: what the library takes on trust from other crates
- `app/`: the program: HTTP with `reqwest`, Kafka with `rdkafka`, files, tasks and signals
- `tests/`: tests of the library

Functions named `law_...` state what holds of the library as a whole.
