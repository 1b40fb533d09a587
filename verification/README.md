# database

Verified pieces of a PostgreSQL-compatible database server.

- `src/messages.rs`: the backend messages of the wire protocol and `Message::as_vec`,
  proved to produce exactly the bytes that `Message::encoded` specifies; the framing
  laws (type byte, length field, column count) are proof functions there.
- `src/buffer.rs`: the `bytes::BytesMut` buffer the encoders write into, declared to
  Verus with one contract per method that is called.
- `src/wire.rs`: big-endian integers as the protocol writes them.
- `src/create_table.rs`: the decisions of `CREATE TABLE` planning.
- `app/`: the glue to the database's catalog, storage and plan types.
