# pub-observe-schema

The typed model of the three OpenTelemetry signals (traces, metrics, logs) and the rules of
the protocol that the types cannot express, verified with Verus.

- `src/` is the library, verified but for three one-line wrappers around std's text
  formatting (`String::push`, and the `{:?}` text of a string and of a character): the
  message types, the validation of each payload (`Signal::validate`, which names the path
  and the rule of the first refusal), hex identifiers, base64, decimal 64-bit integers and
  integer-only enums. Each public function written in `src/` states its result in `ensures`
  over spec functions; the `law_*` proof functions state what holds across functions (round
  trips, what a valid payload keeps).
- Doubles are held by their IEEE 754 bit patterns (`Double`), which compare and order as the
  doubles do, so the library holds no floating-point numbers. A refusal that names a double
  carries its bits and a `{}` in its reason; the caller writes the number in with
  `Invalid::with_value_text`.
- `app/` is ordinary Rust around the library: the serde forms of the messages, the OTLP/JSON
  encoding (`from_json`, `to_json`) and the error type that wraps JSON errors.
- `tests/` runs the library on concrete values.
