# chroma_log

The client side of a log service, verified with Verus.

- `src/` is the verified library: routing of a request to the primary or the
  alternative log (`grpc_log`), the requests sent and how their answers and
  failures are read (`rpc`), how the reports of collections that need
  compaction are merged (`collections`), the error taxonomy and the service
  error code of each error (`errors`, `codes`), collection identifiers and
  their text (`collection_id`), decimal text (`text`), and the endpoints of
  the log service parsed by tonic (`endpoint`).
- `app/` makes the RPCs over tonic and hands their results to the library;
  it also holds copies of the error types that carry their messages.
- `tests/` runs the library on concrete inputs.
