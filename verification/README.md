# routingkit_cch

A verified front end for RoutingKit's Customizable Contraction Hierarchies.

- `src/` is the library, verified with Verus. It checks every input before it
  reaches the C++ engine (node orders, arc lists, weight vectors, query nodes),
  holds the weight vector of each metric and applies partial updates to it, and
  plans the exact sequence of calls each engine query object receives. The
  protocol of those calls (which call the engine accepts in which state, and the
  state it leaves behind) is modelled in `src/engine.rs`; every plan the
  library hands out is proved to be accepted call by call and to leave the
  query in the state the documentation promises.
- `app/` binds the library to the engine through `cxx` (and to Python through
  `pyo3`): it makes the planned calls and panics where the library refuses an
  input.
- `tests/` runs the library on concrete inputs.
