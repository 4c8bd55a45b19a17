# ironfish_miner

A CPU miner for Iron Fish, written in Verus.

`src/` is the verified library:

- `mining::header` — mining one batch of randomness values over a block header
  (BLAKE3 hash of the header with the randomness in front, compared to the target);
- `mining::target` — reading hashes and targets as 256-bit integers, and turning the
  node's decimal target into 32 big-endian bytes;
- `mining::worker_pool`, `mining::miner` — the jobs the worker threads hold and the
  step a worker takes after each poll of its command channel;
- `rpc` — the node's message types, the framing of JSON messages on the IPC socket, the
  report of found blocks, and a closable FIFO stream;
- `config`, `cli`, `miner` — command-line settings and the start-up decisions;
- `network` — peer identities and message boxing;
- `hashrate` — summing and scaling the hash rate for display.

`app/` is the program around it: argument parsing, the Unix socket, JSON
(de)serialisation, threads and channels, and the hash-rate display.
