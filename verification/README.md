# chunked-uploader

A server for uploads in parts. A client announces a file, gets one signed token
for each part, sends the parts in any order and asks for completion. The parts
are then put together on a local disk, in object storage or on an SMB share.

## Layout

- `src/` is the library: the rules of the service, with contracts that Verus
  proves.
  - `auth`: API keys and part tokens.
  - `config`: settings from environment variables.
  - `db`: the tables of uploads and parts, and every change made to them.
  - `handlers`: what each request answers, the division of a file into parts,
    finalization. `handlers/laws.rs` states what holds across requests.
  - `services`: the cleanup of expired uploads.
  - `storage`: paths, and the steps by which each backend stores, assembles and
    deletes; `storage/smb` holds the state machines of the SMB backend.
  - `text`, `decimal`, `paths`, `cast`, `clock`, `ids`, `digest`, `headers`,
    `error`: what the others rest on.
- `tests/` runs the library on concrete values.
- `app/` is the program around it: HTTP, SQLite, disks and network.

The functions marked `external_body`, and the items that begin with
`assume_specification`, are not proved. Each names the function that it calls and
says what is taken for granted of it.
