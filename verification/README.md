# axum_course

The request-handling logic of a small axum web service, verified with Verus.

- `src/users.rs`: the in-memory user store behind `GET/POST /users` and
  `GET/PUT/DELETE /users/:id`, its abstract model, and proofs of its laws
  (reads see writes, ids are fresh and never reused, failed operations change
  nothing, a delete undoes a create).
- `src/routes.rs`: what the users routes answer, including the 404 reply for a
  missing user.
- `src/handlers.rs`, `src/basics.rs`: the text and values the example handlers
  compute from their extracted inputs (path and query parameters, headers,
  request bodies).
- `src/text.rs`: decimal rendering of `u64`.
- `app/`: the axum server: routers, extractors, JSON (de)serialisation, the
  shared lock around the store, and the floating-point exchange-rate routes.
