# async_demo

Echo servers and a tiny executor, whose decisions are proved correct.

- `src/protocol.rs`: the echo protocol (`hello\r\n` is answered `hi!\r\n`,
  anything else `who are you?\r\n`), the fixed-size write frame, the read
  window, and the test client's send delays.
- `src/task_queue.rs`: trusted wrappers around crossbeam's `ArrayQueue`.
- `src/executor.rs`: task table and bounded FIFO ready queue of the executor.
- `src/reactor.rs`: the reactor's waker table, the register-once decision and
  the token source.
- `src/connections.rs`: the connection table of the mio event loop.
- `app/`: the programs (client, threaded, single, mio, tokio and executor
  servers); socket I/O, polling futures and wakers live there.
