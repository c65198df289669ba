# summer_web

Validation support for a web framework, written in Verus.

- `src/` is the verified library: rename rules and schema planning for the
  `GardeSchema`/`ValidatorSchema` derives (`rename`, `meta`, `literal`,
  `constraints`, `naming`, `patched_schema`, `flat_schema`), problem details
  and the mapping of extraction failures to them (`problem`, `rejection`,
  `extract`), the validation context registry (`context`), and typed route
  handlers bucketed by group (`handler`).
- `app/` is the glue Verus does not see: `syn`/`quote` around the schema
  planner, axum `FromRequest` impls around the extraction decisions, HTTP
  responses for problem details, and `inventory`-based handler collection.
- `tests/` exercises the library with the real outside crates linked.
