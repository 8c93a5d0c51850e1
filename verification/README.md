# tenors

Financial tenors — half-months, months, quarters, half-years and years — as a
type plus an integer offset from a 1970 epoch, with their contract-code
notation, cover and partition between granularities, calendar boundaries, and
the tenor side of forward-curve interpolation. The library is written in Verus:
every function in `src/` carries a contract that the verifier proves.

## Layout

- `src/model.rs` — the integer model (`TenorModel`) and the spec functions the
  contracts are stated over: years, parts of a year, cover, partition.
- `src/tenor_type.rs`, `src/tenor.rs`, `src/duration.rs`, `src/order.rs` —
  the types, constructors, accessors, checked and saturating arithmetic,
  the offset operators (`+`, `-`, `+=`, `-=`), durations, and the two orderings.
- `src/digits.rs`, `src/notation.rs` — the notation as a grammar over ASCII
  bytes: what every string means and how every tenor prints.
- `src/text.rs`, `src/format.rs` — the parsers and the printer, proved against
  that grammar.
- `src/clock.rs`, `src/calendar.rs` — the calls into chrono (the current year,
  dates and the day before a date) behind small trusted wrappers, and the first
  and last day of a tenor.
- `src/interpolation.rs` — which covers fill which tenors, finest cover first,
  and which covers can be checked.
- `src/laws.rs` — properties that span functions: printing then parsing gives
  the tenor back, `cover` undoes `partition`, covers compose, consecutive
  tenors tile the calendar, shifting and shifting back,
  one year rule for every parser, half-months split on the 15th, interpolation
  does not depend on the order of the curve.
- `app/` — what needs other crates' traits or floating point: `Display`,
  `FromStr` and serde on a copy of `Tenor`, error messages, chrono dates, and
  the value arithmetic of interpolation.
