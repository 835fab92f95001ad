# delay_queue

An unbounded queue where each item can only be removed when its delay has
expired, earliest deadline first.

- `src/` is the verified library (Verus):
  - `time.rs`: `Instant` as an opaque type, its total order, and the std
    calls on it;
  - `delayed.rs`: the `Delayed` trait and the `Delay` wrapper;
  - `entry.rs`: queue entries and their priority order;
  - `delay_queue.rs`: the queue kept in deadline order, the step a consumer
    takes for a reading of the clock, and the laws about them.
- `app/` shares one queue between threads (`Arc`, `Mutex`, `Condvar`) and
  blocks consumers until the library says an item is due.
- `tests/` exercises the library.
