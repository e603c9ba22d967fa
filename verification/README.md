# hkcp

A generic connection pool, in the spirit of HikariCP and r2d2, whose logic is
verified with Verus.

- `src/concurrent_bag.rs`: `SimpleBag`, a row of slots; borrows take the first
  occupied slot, releases fill the first empty one.
- `src/concurrent_bag_list.rs`: `ConcurrentBag`, two stacks that borrows and
  releases take turns on.
- `src/pool.rs`: the pool's settings, its error type and `ConnectionPool`, the
  state of a pool and its decisions: open the initial connections and stop at
  the first failure, reuse an idle connection, open a new one while under the
  maximum, or wait for one to be given back.
- `src/random.rs`: the calls into `rand`.
- `app/lib.rs`: the thread-safe pool (`ConnectionFactory`, `PooledConnection`),
  which opens connections on their own thread within a timeout and waits on a
  condition variable, and bags shared between threads. It runs the steps that
  the library decides: how many connections to open when a pool is built,
  when a request connects, waits or fails.
- `tests/`: tests of the library.
