# order

The decisions of an order service, verified with Verus: what it takes to turn a shopping cart into a
pending order, and to place a pending order.

## Layout

- `src/` is the library. Every function states what it returns; the proofs are checked by Verus.
  - `creation.rs` and `placement.rs` hold the two courses, `CreateOrder` and `PlaceOrder`. Each state
    of a course is something that has to be done outside the library (find a document, query another
    service, read the clock); `step` takes what came of it to the next state, and `Done` holds the
    result.
  - `creation_laws.rs`, and the proof functions at the end of the other modules, state what holds of
    whole courses: which orders are inserted, which are placed, which are rejected.
  - `storage.rs` states what the database holds of orders along a course, provided that it gives back
    what it was given and that nothing else writes to it.
  - `cart.rs`, `catalog.rs`, `inventory.rs`, `discounts.rs`, `shipment.rs`, `items.rs`,
    `validation.rs`, `insertion.rs` and `payment.rs` hold the single decisions.
  - `uuid.rs` and `time.rs` call the `bson` crate for UUIDs and timestamps. What is taken on trust of
    it stands at the functions marked `external_body`. Timestamps assume a platform whose `SystemTime`
    holds seconds as a signed 64-bit number, as Unix does.
- `tests/` runs the library on concrete values.
- `app/` is the service around it: GraphQL, MongoDB, HTTP and telemetry. It performs what the courses
  ask for. The texts of its GraphQL queries are read from `queries/`.

## What is left out

The service has no pub/sub routes. It reads users, product variants, tax rates, coupons and shipment
methods from its database, but the handlers of the Dapr events that fill these collections, and of the
event that a shipment could not be created, are not part of this project, nor are the routes to them.

## Conventions

UUIDs are `u128` values, their sixteen bytes read as one big-endian integer. Timestamps are
milliseconds since the Unix epoch. Numbers that the service knows as floating point (tax rates and
discounts) pass through the library as their bits; amounts are computed from them in `app/`.
