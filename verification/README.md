# transfer

A small UDP file-transfer tool. A receiving node (`transfer`) asks an echo
server (`transfer echoip`) for its public address; a sending node
(`transfer send ip:port file`) asks the echo server to open a tunnel to the
receiver, offers the file, and sends it in 1024-byte chunks; the receiver
asks again for the chunks that did not arrive until it has them all.

- `src/` is the verified library: chunking (`chunk`), the datagram frame
  (`frame`), file ids (`file_id`), the messages (`protocol`), the transfers a
  node keeps (`task`), the node's decisions on every message (`node`), the
  start-up choices (`launch`), what actions send and write (`effects`) and
  the properties that span several messages
  and nodes (`laws`).
- `app/` is the program around it: the command line, the UDP socket, files,
  timers, and the serde/bincode encoding of payloads.
- `tests/` runs the library on concrete values.
